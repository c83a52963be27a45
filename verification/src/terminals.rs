//! The terminal backend decision: which backend a builder's choices
//! select, and the validation of the requested size.  Driving a real
//! backend is the embedder's business; this module only decides and
//! validates.

use vstd::prelude::*;
use vstd::string::StringExecFns;
use crate::builder::Builder;
use crate::format_number::{base_digits, bytes_chars, lemma_base_digits_unfold};
use crate::graphics::Size;
use crate::system::{Error, ErrorKind};
use crate::text::string_push;

verus! {

/// The terminal backends a build can drive.
#[derive(Clone, Copy, PartialEq, Eq, Structural, Debug)]
pub enum TerminalType {
    WindowsConsole,
    Termios,
    NcursesTerminal,
}

/// Whether a requested terminal size is unusable: present with a zero
/// width or height.
pub open spec fn terminal_size_invalid(size: Option<Size>) -> bool {
    match size {
        Option::Some(sz) => sz.width == 0 || sz.height == 0,
        Option::None => false,
    }
}

/// The backend a request selects: the requested one, or the portable
/// line-discipline backend when none was requested.
pub open spec fn chosen_terminal(terminal: Option<TerminalType>) -> TerminalType {
    match terminal {
        Option::Some(t) => t,
        Option::None => TerminalType::Termios,
    }
}

/// The decimal digits of a value, as characters.
pub open spec fn dec_chars(v: int) -> Seq<char> {
    bytes_chars(base_digits(v, 10))
}

/// The exact wording that rejects an unusable terminal size.
pub open spec fn invalid_size_message(w: int, h: int) -> Seq<char> {
    "Invalid size for a terminal ("@ + dec_chars(w) + "x"@ + dec_chars(h)
        + "). Both width and height must be bigger than 0 !"@
}

/// Appends the decimal digits of `v`.
fn push_decimal_chars(v: u32, out: &mut String)
    ensures
        final(out)@ == old(out)@ + dec_chars(v as int),
    decreases v,
{
    if v >= 10 {
        proof {
            lemma_base_digits_unfold(v as int, 10);
        }
        push_decimal_chars(v / 10, out);
    }
    let d: u8 = 48 + (v % 10) as u8;
    string_push(out, d as char);
    proof {
        assert(final(out)@ =~= old(out)@ + dec_chars(v as int));
    }
}

/// Decides the backend for a builder's choices; fails exactly when
/// the requested size has a zero width or height, with a message
/// naming that size.
pub fn new(builder: &Builder) -> (r: Result<TerminalType, Error>)
    ensures
        match r {
            Result::Ok(t) => !terminal_size_invalid(builder.size) && t == chosen_terminal(
                builder.terminal,
            ),
            Result::Err(e) => {
                &&& terminal_size_invalid(builder.size)
                &&& e.kind == ErrorKind::InvalidParameter
                &&& e.description@ == invalid_size_message(
                    builder.size->0.width as int,
                    builder.size->0.height as int,
                )
            },
        },
{
    if let Some(sz) = builder.size {
        if sz.width == 0 || sz.height == 0 {
            let mut msg: String = String::from_str("Invalid size for a terminal (");
            push_decimal_chars(sz.width, &mut msg);
            msg.append("x");
            push_decimal_chars(sz.height, &mut msg);
            msg.append("). Both width and height must be bigger than 0 !");
            return Err(Error { kind: ErrorKind::InvalidParameter, description: msg });
        }
    }
    match builder.terminal {
        Some(t) => Ok(t),
        None => Ok(build_default_terminal()),
    }
}

/// The backend used when none was requested.
pub fn build_default_terminal() -> (r: TerminalType)
    ensures
        r == TerminalType::Termios,
{
    TerminalType::Termios
}

} // verus!
