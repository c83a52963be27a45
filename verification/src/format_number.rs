//! Number formatting into caller-supplied byte buffers.
//!
//! A [`FormatNumber`] describes how integers are written: the numeric
//! base (2, 8, 10 or 16), optional digit grouping with a separator,
//! zero padding up to a fixed count of digits, a prefix and a suffix,
//! left filling up to a fixed width, and for fractions a fixed count of
//! decimals.  Writing proceeds right to left into the tail of the
//! buffer and returns the formatted text, or nothing when the buffer is
//! too small.  The layout of a formatted number is
//! `fill sign prefix digits decimals suffix`.
//!
//! Everything here works on single-byte (ASCII) characters; the prefix
//! and suffix are required to be ASCII.

use vstd::prelude::*;
use vstd::string::{is_ascii, StrSliceExecFns};
use vstd::utf8::is_ascii_chars;
use crate::coordinates::abs_int;

verus! {

/// The byte that writes a digit value: `0`..`9` then `A`..`F`.
pub open spec fn digit_byte(d: int) -> u8 {
    if d < 10 {
        (48 + d) as u8
    } else {
        (55 + d) as u8
    }
}

/// The digits of `v` in base `b`, most significant first.  (The inner
/// bounding of the quotient is vacuous for a real base — see
/// [`lemma_base_digits_unfold`] — and only justifies the recursion
/// measure.)
pub open spec fn base_digits(v: int, b: int) -> Seq<u8>
    decreases v,
{
    if v < b || b < 2 {
        seq![digit_byte(v)]
    } else {
        let q0 = v / b;
        let q = if 0 <= q0 < v {
            q0
        } else {
            0
        };
        base_digits(q, b).push(digit_byte(v % b))
    }
}

/// For `0 <= v` and a real base, the recursion steps on the true
/// quotient.
pub proof fn lemma_base_digits_unfold(v: int, b: int)
    requires
        2 <= b,
        b <= v,
    ensures
        0 <= v / b < v,
        base_digits(v, b) == base_digits(v / b, b).push(digit_byte(v % b)),
{
    vstd::arithmetic::div_mod::lemma_div_pos_is_pos(v, b);
    vstd::arithmetic::div_mod::lemma_div_decreases(v, b);
}

/// Every digit byte of a nonnegative value in a base up to 16 is a
/// printable ASCII byte below 128.
pub proof fn lemma_base_digits_ascii(v: int, b: int)
    requires
        0 <= v,
        2 <= b <= 16,
    ensures
        forall|i: int|
            0 <= i < base_digits(v, b).len() ==> 48 <= #[trigger] base_digits(v, b)[i] < 128,
    decreases v,
{
    if v < b {
        assert(0 <= v % b < b || v < b);
    } else {
        lemma_base_digits_unfold(v, b);
        lemma_base_digits_ascii(v / b, b);
        vstd::arithmetic::div_mod::lemma_mod_bound(v, b);
    }
}

/// `n` zero-digit bytes.
pub open spec fn zero_bytes(n: int) -> Seq<u8> {
    Seq::new(n as nat, |i: int| 48u8)
}

/// Digits with a separator inserted after every `g` digits, counted
/// from the right.
pub open spec fn with_seps(d: Seq<u8>, g: int, sep: u8) -> Seq<u8>
    decreases d.len(),
{
    if g <= 0 || d.len() <= g {
        d
    } else {
        with_seps(d.take(d.len() - g), g, sep) + seq![sep] + d.skip(d.len() - g)
    }
}

/// Separators keep every byte printable.
pub proof fn lemma_with_seps_ascii(d: Seq<u8>, g: int, sep: u8)
    requires
        forall|i: int| 0 <= i < d.len() ==> 32 <= #[trigger] d[i] < 128,
        32 <= sep < 128,
    ensures
        forall|i: int|
            0 <= i < with_seps(d, g, sep).len() ==> 32 <= #[trigger] with_seps(d, g, sep)[i]
                < 128,
    decreases d.len(),
{
    if g <= 0 || d.len() <= g {
    } else {
        let head = d.take(d.len() - g);
        let tail = d.skip(d.len() - g);
        assert(forall|i: int| 0 <= i < head.len() ==> 32 <= #[trigger] head[i] < 128);
        lemma_with_seps_ascii(head, g, sep);
        let res = with_seps(d, g, sep);
        assert(res == with_seps(head, g, sep) + seq![sep] + tail);
        assert forall|i: int| 0 <= i < res.len() implies 32 <= #[trigger] res[i] < 128 by {
            let hl = with_seps(head, g, sep).len() as int;
            if i < hl {
                assert(res[i] == with_seps(head, g, sep)[i]);
            } else if i == hl {
                assert(res[i] == sep);
            } else {
                assert(res[i] == tail[i - hl - 1]);
                assert(tail[i - hl - 1] == d[d.len() - g + (i - hl - 1)]);
            }
        }
    }
}

/// The characters of a run of single-byte text.
pub open spec fn bytes_chars(s: Seq<u8>) -> Seq<char> {
    s.map_values(|b: u8| b as char)
}

/// The bytes of ASCII text.
pub open spec fn ascii_bytes(s: Seq<char>) -> Seq<u8> {
    s.map_values(|c: char| c as u8)
}

/// Relies on `core::str::from_utf8`: on bytes below 128 it always
/// succeeds and yields exactly those characters.
#[verifier::external_body]
pub(crate) fn ascii_str_range<'a>(buf: &'a Vec<u8>, start: usize, end: usize) -> (r: &'a str)
    requires
        start <= end <= buf@.len(),
        forall|i: int| start <= i < end ==> buf@[i] < 128,
    ensures
        r@ == bytes_chars(buf@.subrange(start as int, end as int)),
{
    core::str::from_utf8(&buf[start..end]).unwrap_or("")
}

/// How numbers are written: base, grouping, zero padding, affixes,
/// filling and decimals.
#[derive(Clone, Copy, PartialEq, Debug)]
pub struct FormatNumber {
    pub base: u8,
    pub group_size: u8,
    pub separator_char: u8,
    pub width: u8,
    pub fill_char: u8,
    pub representation_digits: u8,
    pub number_of_decimals: u8,
    pub prefix: &'static str,
    pub suffix: &'static str,
}

impl FormatNumber {
    /// A format description is well formed when every field is inside
    /// the vocabulary the writers understand.
    pub open spec fn wf(self) -> bool {
        &&& (self.base == 2 || self.base == 8 || self.base == 10 || self.base == 16)
        &&& (self.group_size == 0 || self.group_size == 3 || self.group_size == 4)
        &&& (self.group_size == 0 ==> self.separator_char == 0)
        &&& (self.group_size > 0 ==> 32 <= self.separator_char <= 126)
        &&& (self.width == 0 ==> self.fill_char == 0)
        &&& (self.width > 0 ==> 32 <= self.fill_char <= 126)
        &&& self.number_of_decimals <= 8
        &&& is_ascii_chars(self.prefix@)
        &&& is_ascii_chars(self.suffix@)
    }

    /// A fresh description for one of the four supported bases; no
    /// grouping, padding, affixes, filling or decimals.
    pub fn new(base: u8) -> (r: FormatNumber)
        requires
            base == 2 || base == 8 || base == 10 || base == 16,
        ensures
            r.wf(),
            r == (FormatNumber {
                base,
                group_size: 0,
                separator_char: 0,
                width: 0,
                fill_char: 0,
                representation_digits: 0,
                number_of_decimals: 0,
                prefix: "",
                suffix: "",
            }),
    {
        proof {
            reveal_strlit("");
        }
        FormatNumber {
            base,
            group_size: 0,
            separator_char: 0,
            width: 0,
            fill_char: 0,
            representation_digits: 0,
            number_of_decimals: 0,
            prefix: "",
            suffix: "",
        }
    }

    /// Groups the digits in runs of `size` (3 or 4), separated by a
    /// printable separator; size zero turns grouping off.
    pub fn group(self, size: u8, separator: u8) -> (r: FormatNumber)
        requires
            size == 0 || size == 3 || size == 4,
            size == 0 ==> separator == 0,
            size > 0 ==> 32 <= separator <= 126,
            self.wf(),
        ensures
            r.wf(),
            r == (FormatNumber { group_size: size, separator_char: separator, ..self }),
    {
        FormatNumber { group_size: size, separator_char: separator, ..self }
    }

    /// Fills with a printable character on the left up to `size`
    /// characters; size zero turns filling off.
    pub fn fill(self, size: u8, fill_char: u8) -> (r: FormatNumber)
        requires
            size == 0 ==> fill_char == 0,
            size > 0 ==> 32 <= fill_char <= 126,
            self.wf(),
        ensures
            r.wf(),
            r == (FormatNumber { width: size, fill_char, ..self }),
    {
        FormatNumber { width: size, fill_char, ..self }
    }

    /// Zero-pads the digits up to `value` places.
    pub fn representation_digits(self, value: u8) -> (r: FormatNumber)
        requires
            value >= 1,
            self.base == 2 ==> value <= 128,
            self.base == 8 ==> value <= 43,
            self.base == 10 ==> value <= 39,
            self.base == 16 ==> value <= 32,
            self.wf(),
        ensures
            r.wf(),
            r == (FormatNumber { representation_digits: value, ..self }),
    {
        FormatNumber { representation_digits: value, ..self }
    }

    /// Appends ASCII text after the digits.
    pub fn suffix(self, suffix: &'static str) -> (r: FormatNumber)
        requires
            is_ascii(suffix),
            self.wf(),
        ensures
            r.wf(),
            r == (FormatNumber { suffix, ..self }),
    {
        FormatNumber { suffix, ..self }
    }

    /// Prepends ASCII text before the digits (after the sign).
    pub fn prefix(self, prefix: &'static str) -> (r: FormatNumber)
        requires
            is_ascii(prefix),
            self.wf(),
        ensures
            r.wf(),
            r == (FormatNumber { prefix, ..self }),
    {
        FormatNumber { prefix, ..self }
    }

    /// Writes fractions with `value` decimal places (at most eight).
    pub fn decimals(self, value: u8) -> (r: FormatNumber)
        requires
            value <= 8,
            self.wf(),
        ensures
            r.wf(),
            r == (FormatNumber { number_of_decimals: value, ..self }),
    {
        FormatNumber { number_of_decimals: value, ..self }
    }
}


/// A copy of the window `[from, to)` of `v`.
fn copy_bytes(v: &Vec<u8>, from: usize, to: usize) -> (r: Vec<u8>)
    requires
        from <= to <= v@.len(),
    ensures
        r@ == v@.subrange(from as int, to as int),
{
    let mut r: Vec<u8> = Vec::new();
    let mut i: usize = from;
    while i < to
        invariant
            from <= i <= to <= v@.len(),
            r@ == v@.subrange(from as int, i as int),
        decreases to - i,
    {
        r.push(v[i]);
        i = i + 1;
        proof {
            assert(r@ =~= v@.subrange(from as int, i as int));
        }
    }
    r
}

/// Overwrites `buf[at ..)` with the whole of `block`.
fn splice(buf: &mut Vec<u8>, at: usize, block: &Vec<u8>)
    requires
        at + block@.len() <= old(buf)@.len(),
    ensures
        final(buf)@.len() == old(buf)@.len(),
        final(buf)@ == old(buf)@.take(at as int) + block@ + old(buf)@.skip(
            at as int + block@.len(),
        ),
{
    let total: usize = buf.len();
    let mut j: usize = 0;
    while j < block.len()
        invariant
            at + block@.len() <= old(buf)@.len(),
            j <= block@.len(),
            total == old(buf)@.len(),
            buf@.len() == old(buf)@.len(),
            buf@ == old(buf)@.take(at as int) + block@.take(j as int) + old(buf)@.skip(
                at as int + j,
            ),
        decreases block@.len() - j,
    {
        buf[at + j] = block[j];
        j = j + 1;
        proof {
            assert(buf@ =~= old(buf)@.take(at as int) + block@.take(j as int) + old(buf)@.skip(
                at as int + j,
            ));
        }
    }
    proof {
        assert(block@.take(block@.len() as int) =~= block@);
        assert(buf@.take(at as int) =~= old(buf)@.take(at as int));
    }
}

/// Appends the digits of `v` in base `b`, most significant first.
fn push_digits(v: u128, b: u8, out: &mut Vec<u8>)
    requires
        2 <= b <= 16,
    ensures
        final(out)@ == old(out)@ + base_digits(v as int, b as int),
    decreases v,
{
    let bb: u128 = b as u128;
    if v >= bb {
        proof {
            lemma_base_digits_unfold(v as int, b as int);
        }
        push_digits(v / bb, b, out);
    }
    let d: u8 = (v % bb) as u8;
    let byte: u8 = if d < 10 {
        48 + d
    } else {
        55 + d
    };
    if v < bb {
        proof {
            vstd::arithmetic::div_mod::lemma_small_mod(v as nat, bb as nat);
        }
    }
    out.push(byte);
    proof {
        assert(final(out)@ =~= old(out)@ + base_digits(v as int, b as int));
    }
}

/// The digits zero-padded on the left up to the representation width.
pub open spec fn spec_padded(f: FormatNumber, v: int) -> Seq<u8> {
    let raw = base_digits(v, f.base as int);
    if raw.len() >= f.representation_digits {
        raw
    } else {
        zero_bytes(f.representation_digits - raw.len()) + raw
    }
}

/// The digit block of a magnitude: padded digits with separators.
pub open spec fn spec_block(f: FormatNumber, v: int) -> Seq<u8> {
    with_seps(spec_padded(f, v), f.group_size as int, f.separator_char)
}

/// Every byte of a digit block is printable.
pub proof fn lemma_block_ascii(f: FormatNumber, v: int)
    requires
        f.wf(),
        0 <= v,
    ensures
        forall|i: int|
            0 <= i < spec_block(f, v).len() ==> 32 <= #[trigger] spec_block(f, v)[i] < 128,
{
    lemma_base_digits_ascii(v, f.base as int);
    let raw = base_digits(v, f.base as int);
    let padded = spec_padded(f, v);
    assert forall|i: int| 0 <= i < padded.len() implies 32 <= #[trigger] padded[i] < 128 by {
        if raw.len() < f.representation_digits {
            let z = f.representation_digits - raw.len();
            if i >= z {
                assert(padded[i] == raw[i - z]);
            }
        }
    }
    if f.group_size > 0 {
        lemma_with_seps_ascii(padded, f.group_size as int, f.separator_char);
    }
}

/// Digits with separators inserted after every `g` digits from the
/// right.
fn grouped(d: &Vec<u8>, g: u8, sep: u8) -> (r: Vec<u8>)
    ensures
        r@ == with_seps(d@, g as int, sep),
    decreases d@.len(),
{
    let n: usize = d.len();
    if g == 0 || n <= g as usize {
        let r = copy_bytes(d, 0, n);
        proof {
            assert(d@.subrange(0, n as int) =~= d@);
        }
        r
    } else {
        let cut: usize = n - g as usize;
        let head = copy_bytes(d, 0, cut);
        let mut r = grouped(&head, g, sep);
        r.push(sep);
        let mut tail = copy_bytes(d, cut, n);
        r.append(&mut tail);
        proof {
            assert(d@.subrange(0, cut as int) =~= d@.take(cut as int));
            assert(d@.subrange(cut as int, n as int) =~= d@.skip(cut as int));
            assert(r@ =~= with_seps(d@, g as int, sep));
        }
        r
    }
}

/// The whole digit block of a magnitude.
fn make_block(f: &FormatNumber, v: u128) -> (r: Vec<u8>)
    requires
        f.wf(),
    ensures
        r@ == spec_block(*f, v as int),
{
    let mut raw: Vec<u8> = Vec::new();
    push_digits(v, f.base, &mut raw);
    let rep: usize = f.representation_digits as usize;
    let mut padded: Vec<u8> = Vec::new();
    if raw.len() < rep {
        let zeros: usize = rep - raw.len();
        let mut k: usize = 0;
        while k < zeros
            invariant
                k <= zeros,
                padded@ =~= zero_bytes(k as int),
            decreases zeros - k,
        {
            padded.push(48u8);
            k = k + 1;
            proof {
                assert(padded@ =~= zero_bytes(k as int));
            }
        }
    }
    padded.append(&mut raw);
    proof {
        assert(padded@ =~= spec_padded(*f, v as int));
    }
    grouped(&padded, f.group_size, f.separator_char)
}

/// `n` copies of a fill byte.
pub open spec fn fill_bytes(n: int, c: u8) -> Seq<u8> {
    Seq::new(n as nat, |i: int| c)
}

/// The decimals block: a dot and exactly `number_of_decimals` digits of
/// `v` (low digits, padded with zeroes on the left); empty when
/// decimals are off.
pub open spec fn spec_dec_block(f: FormatNumber, v: int) -> Seq<u8> {
    if f.number_of_decimals == 0 {
        Seq::empty()
    } else {
        let ds = base_digits(v, 10);
        let nd = f.number_of_decimals as int;
        let w = if ds.len() >= nd {
            ds.skip(ds.len() - nd)
        } else {
            zero_bytes(nd - ds.len()) + ds
        };
        seq![46u8] + w
    }
}

impl FormatNumber {
    /// Writes text so that it ends just before `offset`; fails when it
    /// does not fit.
    pub fn write_str(&self, value: &str, offset: usize, buffer: &mut Vec<u8>) -> (r: Option<
        usize,
    >)
        requires
            is_ascii(value),
        ensures
            final(buffer)@.len() == old(buffer)@.len(),
            if offset > old(buffer)@.len() {
                r is None && final(buffer)@ == old(buffer)@
            } else if value@.len() == 0 {
                r == Option::Some(offset) && final(buffer)@ == old(buffer)@
            } else if value@.len() > offset {
                r is None && final(buffer)@ == old(buffer)@
            } else {
                &&& r == Option::Some((offset - value@.len()) as usize)
                &&& final(buffer)@ == old(buffer)@.take(offset - value@.len()) + ascii_bytes(
                    value@,
                ) + old(buffer)@.skip(offset as int)
            },
    {
        if offset > buffer.len() {
            return None;
        }
        let n: usize = value.unicode_len();
        if n == 0 {
            return Some(offset);
        }
        if n > offset {
            return None;
        }
        let mut bytes: Vec<u8> = Vec::new();
        let mut i: usize = 0;
        while i < n
            invariant
                n == value@.len(),
                is_ascii(value),
                i <= n,
                bytes@ == ascii_bytes(value@.take(i as int)),
            decreases n - i,
        {
            bytes.push(value.get_ascii(i));
            i = i + 1;
            proof {
                assert(bytes@ =~= ascii_bytes(value@.take(i as int)));
            }
        }
        proof {
            assert(value@.take(n as int) =~= value@);
        }
        let pos: usize = offset - n;
        splice(buffer, pos, &bytes);
        proof {
            assert(final(buffer)@ == old(buffer)@.take(pos as int) + ascii_bytes(value@) + old(
                buffer,
            )@.skip(offset as int));
        }
        Some(pos)
    }

    /// Writes the grouped, zero-padded digits of a magnitude so that
    /// they end just before `offset`; fails when they do not fit, and
    /// then leaves the buffer as it was.
    pub fn write_integer_number(&self, value: u128, offset: usize, buffer: &mut Vec<u8>) -> (r:
        Option<usize>)
        requires
            self.wf(),
            offset <= old(buffer)@.len(),
        ensures
            final(buffer)@.len() == old(buffer)@.len(),
            ({
                let blk = spec_block(*self, value as int);
                if blk.len() <= offset {
                    &&& r == Option::Some((offset - blk.len()) as usize)
                    &&& final(buffer)@ == old(buffer)@.take(offset - blk.len()) + blk + old(
                        buffer,
                    )@.skip(offset as int)
                } else {
                    r is None && final(buffer)@ == old(buffer)@
                }
            }),
    {
        let block = make_block(self, value);
        if block.len() > offset {
            return None;
        }
        let pos: usize = offset - block.len();
        splice(buffer, pos, &block);
        Some(pos)
    }

    /// Fills from the width mark up to `offset` with the fill
    /// character; a no-op without a width, a failure when the width
    /// does not fit the buffer.
    pub fn write_fill_char(&self, offset: usize, buffer: &mut Vec<u8>) -> (r: Option<usize>)
        requires
            self.wf(),
        ensures
            final(buffer)@.len() == old(buffer)@.len(),
            if offset >= old(buffer)@.len() {
                r is None && final(buffer)@ == old(buffer)@
            } else if self.width == 0 {
                r == Option::Some(offset) && final(buffer)@ == old(buffer)@
            } else if self.width > old(buffer)@.len() {
                r is None && final(buffer)@ == old(buffer)@
            } else if old(buffer)@.len() - self.width >= offset {
                r == Option::Some(offset) && final(buffer)@ == old(buffer)@
            } else {
                &&& r == Option::Some((old(buffer)@.len() - self.width as int) as usize)
                &&& final(buffer)@ == old(buffer)@.take(old(buffer)@.len() - self.width as int)
                    + fill_bytes(
                    offset - (old(buffer)@.len() - self.width as int),
                    self.fill_char,
                ) + old(buffer)@.skip(offset as int)
            },
    {
        if offset >= buffer.len() {
            return None;
        }
        if self.width == 0 {
            return Some(offset);
        }
        let w: usize = self.width as usize;
        if w > buffer.len() {
            return None;
        }
        let start: usize = buffer.len() - w;
        if start >= offset {
            return Some(offset);
        }
        let total: usize = buffer.len();
        let mut i: usize = start;
        while i < offset
            invariant
                start <= i <= offset < total,
                total == old(buffer)@.len(),
                buf_filled(old(buffer)@, buffer@, start as int, i as int, self.fill_char),
            decreases offset - i,
        {
            buffer[i] = self.fill_char;
            i = i + 1;
        }
        proof {
            assert(buffer@ =~= old(buffer)@.take(start as int) + fill_bytes(
                offset - start,
                self.fill_char,
            ) + old(buffer)@.skip(offset as int));
        }
        Some(start)
    }

    /// Writes the decimals block (a dot and the fixed count of digits
    /// of `value`) so that it ends just before `offset`; a no-op
    /// without decimals.
    pub fn write_decimals(&self, value: u64, offset: usize, buffer: &mut Vec<u8>) -> (r: Option<
        usize,
    >)
        requires
            self.wf(),
            offset <= old(buffer)@.len(),
        ensures
            final(buffer)@.len() == old(buffer)@.len(),
            if self.number_of_decimals == 0 {
                r == Option::Some(offset) && final(buffer)@ == old(buffer)@
            } else if self.number_of_decimals + 1 > offset {
                r is None && final(buffer)@ == old(buffer)@
            } else {
                &&& r == Option::Some((offset - self.number_of_decimals - 1) as usize)
                &&& final(buffer)@ == old(buffer)@.take(
                    offset - self.number_of_decimals - 1,
                ) + spec_dec_block(*self, value as int) + old(buffer)@.skip(offset as int)
            },
    {
        if self.number_of_decimals == 0 {
            return Some(offset);
        }
        let nd: usize = self.number_of_decimals as usize;
        if nd + 1 > offset {
            return None;
        }
        let mut raw: Vec<u8> = Vec::new();
        push_digits(value as u128, 10, &mut raw);
        let mut block: Vec<u8> = Vec::new();
        block.push(46u8);
        if raw.len() >= nd {
            let mut tail = copy_bytes(&raw, raw.len() - nd, raw.len());
            block.append(&mut tail);
        } else {
            let zeros: usize = nd - raw.len();
            let mut k: usize = 0;
            while k < zeros
                invariant
                    k <= zeros,
                    block@ =~= seq![46u8] + zero_bytes(k as int),
                decreases zeros - k,
            {
                block.push(48u8);
                k = k + 1;
                proof {
                    assert(block@ =~= seq![46u8] + zero_bytes(k as int));
                }
            }
            block.append(&mut raw);
        }
        proof {
            assert(block@ =~= spec_dec_block(*self, value as int));
        }
        let pos: usize = offset - nd - 1;
        splice(buffer, pos, &block);
        Some(pos)
    }

    /// Writes the decimal digits of `value` right-aligned; when the
    /// buffer is too small, only the lowest digits are kept.  Returns
    /// where the written tail begins.
    pub fn write_to_buffer(value: u64, buf: &mut Vec<u8>) -> (start: usize)
        ensures
            final(buf)@.len() == old(buf)@.len(),
            ({
                let ds = base_digits(value as int, 10);
                let k = if ds.len() <= old(buf)@.len() {
                    ds.len() as int
                } else {
                    old(buf)@.len() as int
                };
                &&& start == old(buf)@.len() - k
                &&& final(buf)@ == old(buf)@.take(start as int) + ds.skip(ds.len() - k)
            }),
    {
        let len: usize = buf.len();
        if len == 0 {
            proof {
                assert(final(buf)@ =~= old(buf)@.take(0) + base_digits(value as int, 10).skip(
                    base_digits(value as int, 10).len() as int,
                ));
            }
            return 0;
        }
        let mut ds: Vec<u8> = Vec::new();
        push_digits(value as u128, 10, &mut ds);
        let k: usize = if ds.len() <= len {
            ds.len()
        } else {
            len
        };
        let tail = copy_bytes(&ds, ds.len() - k, ds.len());
        let start: usize = len - k;
        splice(buf, start, &tail);
        start
    }
}

/// The prefix of `cur` up to `i` is `orig` with `[start, i)` filled.
pub open spec fn buf_filled(orig: Seq<u8>, cur: Seq<u8>, start: int, i: int, c: u8) -> bool {
    &&& cur.len() == orig.len()
    &&& forall|j: int| 0 <= j < start ==> cur[j] == orig[j]
    &&& forall|j: int| start <= j < i ==> cur[j] == c
    &&& forall|j: int| i <= j < cur.len() ==> cur[j] == orig[j]
}

/// The content of a formatted number, without the left fill: sign,
/// prefix, digit block, decimals block, suffix.
pub open spec fn spec_content(f: FormatNumber, neg: bool, mag: int, dec: Option<u64>) -> Seq<u8> {
    (if neg {
        seq![45u8]
    } else {
        Seq::empty()
    }) + ascii_bytes(f.prefix@) + spec_block(f, mag) + (match dec {
        Option::Some(dv) => spec_dec_block(f, dv as int),
        Option::None => Seq::empty(),
    }) + ascii_bytes(f.suffix@)
}

/// The full formatted text: the content, left-filled up to the width
/// when one is set.
pub open spec fn spec_result(f: FormatNumber, neg: bool, mag: int, dec: Option<u64>) -> Seq<u8> {
    let c = spec_content(f, neg, mag, dec);
    if f.width > c.len() {
        fill_bytes(f.width - c.len(), f.fill_char) + c
    } else {
        c
    }
}

/// What a write yields: the formatted text at the tail of the buffer,
/// or nothing exactly when the content or the fill width exceeds the
/// buffer.
pub open spec fn write_result_spec(
    f: FormatNumber,
    neg: bool,
    mag: int,
    dec: Option<u64>,
    old_buf: Seq<u8>,
    r: Option<&str>,
    new_buf: Seq<u8>,
) -> bool {
    let c = spec_content(f, neg, mag, dec);
    let res = spec_result(f, neg, mag, dec);
    &&& new_buf.len() == old_buf.len()
    &&& match r {
        Option::Some(s) => {
            &&& c.len() <= old_buf.len()
            &&& f.width <= old_buf.len()
            &&& s@ == bytes_chars(res)
            &&& new_buf == old_buf.take(old_buf.len() - res.len()) + res
        },
        Option::None => !(c.len() <= old_buf.len() && f.width <= old_buf.len()),
    }
}

/// Every byte of a formatted text is below 128.
pub proof fn lemma_result_ascii(f: FormatNumber, neg: bool, mag: int, dec: Option<u64>)
    requires
        f.wf(),
        0 <= mag,
    ensures
        forall|i: int|
            0 <= i < spec_result(f, neg, mag, dec).len() ==> #[trigger] spec_result(
                f,
                neg,
                mag,
                dec,
            )[i] < 128,
{
    let sign = if neg {
        seq![45u8]
    } else {
        Seq::<u8>::empty()
    };
    let pb = ascii_bytes(f.prefix@);
    let blk = spec_block(f, mag);
    let db = match dec {
        Option::Some(dv) => spec_dec_block(f, dv as int),
        Option::None => Seq::<u8>::empty(),
    };
    let sb = ascii_bytes(f.suffix@);
    lemma_block_ascii(f, mag);
    assert(forall|i: int| 0 <= i < pb.len() ==> #[trigger] pb[i] < 128);
    assert(forall|i: int| 0 <= i < sb.len() ==> #[trigger] sb[i] < 128);
    assert forall|i: int| 0 <= i < db.len() implies #[trigger] db[i] < 128 by {
        if dec is Some && f.number_of_decimals > 0 {
            let dv = dec->0 as int;
            let ds = base_digits(dv, 10);
            let nd = f.number_of_decimals as int;
            lemma_base_digits_ascii(dv, 10);
            if i >= 1 {
                let w = if ds.len() >= nd {
                    ds.skip(ds.len() - nd)
                } else {
                    zero_bytes(nd - ds.len()) + ds
                };
                assert(db[i] == w[i - 1]);
                if ds.len() >= nd {
                    assert(w[i - 1] == ds[ds.len() - nd + (i - 1)]);
                } else {
                    if i - 1 >= nd - ds.len() {
                        assert(w[i - 1] == ds[i - 1 - (nd - ds.len())]);
                    }
                }
            }
        }
    }
    let c = spec_content(f, neg, mag, dec);
    assert forall|i: int| 0 <= i < c.len() implies #[trigger] c[i] < 128 by {
        let a = sign.len() as int;
        let b = a + pb.len();
        let cc = b + blk.len();
        let d = cc + db.len();
        if i < a {
            assert(c[i] == 45u8);
        } else if i < b {
            assert(c[i] == pb[i - a]);
        } else if i < cc {
            assert(c[i] == blk[i - b]);
        } else if i < d {
            assert(c[i] == db[i - cc]);
        } else {
            assert(c[i] == sb[i - d]);
        }
    }
    let res = spec_result(f, neg, mag, dec);
    assert forall|i: int| 0 <= i < res.len() implies #[trigger] res[i] < 128 by {
        if f.width > c.len() {
            let fl = f.width - c.len();
            if i < fl {
                assert(res[i] == f.fill_char);
            } else {
                assert(res[i] == c[i - fl]);
            }
        } else {
            assert(res[i] == c[i]);
        }
    }
}


/// Chaining one right-to-left write onto an already written tail: what
/// was below the old position is still the original buffer, and what
/// was from the old position on is the tail already written.
proof fn lemma_stitch(b0: Seq<u8>, tail: Seq<u8>, oldpos: int, newpos: int)
    requires
        0 <= newpos <= oldpos <= b0.len(),
        oldpos + tail.len() == b0.len(),
    ensures
        (b0.take(oldpos) + tail).take(newpos) == b0.take(newpos),
        (b0.take(oldpos) + tail).skip(oldpos) == tail,
        (b0.take(oldpos) + tail).len() == b0.len(),
{
    assert((b0.take(oldpos) + tail).take(newpos) =~= b0.take(newpos));
    assert((b0.take(oldpos) + tail).skip(oldpos) =~= tail);
}

impl FormatNumber {
    /// Writes the right half of the content (digits, decimals,
    /// suffix) right-aligned; fails only when it does not fit.
    #[verifier::rlimit(100)]
    fn write_right(&self, mag: u128, dec: Option<u64>, buffer: &mut Vec<u8>) -> (r: Option<usize>)
        requires
            self.wf(),
        ensures
            final(buffer)@.len() == old(buffer)@.len(),
            ({
                let t = spec_block(*self, mag as int) + (match dec {
                    Option::Some(dv) => spec_dec_block(*self, dv as int),
                    Option::None => Seq::<u8>::empty(),
                }) + ascii_bytes(self.suffix@);
                match r {
                    Option::Some(pos) => {
                        &&& pos + t.len() == old(buffer)@.len()
                        &&& final(buffer)@ == old(buffer)@.take(pos as int) + t
                    },
                    Option::None => t.len() > old(buffer)@.len(),
                }
            }),
    {
        let ghost b0 = buffer@;
        let ghost blk = spec_block(*self, mag as int);
        let ghost db = match dec {
            Option::Some(dv) => spec_dec_block(*self, dv as int),
            Option::None => Seq::<u8>::empty(),
        };
        let ghost sb = ascii_bytes(self.suffix@);
        let len: usize = buffer.len();
        // suffix
        let pos: usize = match self.write_str(self.suffix, len, buffer) {
            Some(p) => p,
            None => {
                return None;
            },
        };
        proof {
            assert(b0.skip(len as int) =~= Seq::<u8>::empty());
            assert(buffer@ =~= b0.take(pos as int) + sb);
        }
        // decimals
        let pos2: usize = match dec {
            Some(dv) => {
                match self.write_decimals(dv, pos, buffer) {
                    Some(p) => p,
                    None => {
                        return None;
                    },
                }
            },
            None => pos,
        };
        proof {
            lemma_stitch(b0, sb, pos as int, pos2 as int);
            assert(buffer@ =~= b0.take(pos2 as int) + (db + sb));
        }
        // digits
        let pos3: usize = match self.write_integer_number(mag, pos2, buffer) {
            Some(p) => p,
            None => {
                return None;
            },
        };
        proof {
            lemma_stitch(b0, db + sb, pos2 as int, pos3 as int);
            assert(buffer@ =~= b0.take(pos3 as int) + (blk + (db + sb)));
            assert(blk + (db + sb) =~= blk + db + sb);
        }
        Some(pos3)
    }

    /// Writes the content (sign, prefix, digits, decimals, suffix)
    /// right-aligned; fails only when it does not fit.
    #[verifier::rlimit(100)]
    fn write_core(&self, neg: bool, mag: u128, dec: Option<u64>, buffer: &mut Vec<u8>) -> (r:
        Option<usize>)
        requires
            self.wf(),
        ensures
            final(buffer)@.len() == old(buffer)@.len(),
            ({
                let c = spec_content(*self, neg, mag as int, dec);
                match r {
                    Option::Some(pos) => {
                        &&& pos + c.len() == old(buffer)@.len()
                        &&& final(buffer)@ == old(buffer)@.take(pos as int) + c
                    },
                    Option::None => c.len() > old(buffer)@.len(),
                }
            }),
    {
        let ghost b0 = buffer@;
        let ghost c = spec_content(*self, neg, mag as int, dec);
        let ghost sign = if neg {
            seq![45u8]
        } else {
            Seq::<u8>::empty()
        };
        let ghost pb = ascii_bytes(self.prefix@);
        let ghost t = spec_block(*self, mag as int) + (match dec {
            Option::Some(dv) => spec_dec_block(*self, dv as int),
            Option::None => Seq::<u8>::empty(),
        }) + ascii_bytes(self.suffix@);
        proof {
            assert(c =~= sign + pb + t);
        }
        let pos3: usize = match self.write_right(mag, dec, buffer) {
            Some(p) => p,
            None => {
                return None;
            },
        };
        // prefix
        let pos4: usize = match self.write_str(self.prefix, pos3, buffer) {
            Some(p) => p,
            None => {
                return None;
            },
        };
        proof {
            lemma_stitch(b0, t, pos3 as int, pos4 as int);
            assert(buffer@ =~= b0.take(pos4 as int) + (pb + t));
        }
        // sign
        if neg {
            if pos4 == 0 {
                return None;
            }
            let p5: usize = pos4 - 1;
            buffer[p5] = 45u8;
            proof {
                assert(buffer@ =~= b0.take(p5 as int) + c);
            }
            Some(p5)
        } else {
            proof {
                assert(c =~= pb + t);
            }
            Some(pos4)
        }
    }

    /// Writes a sign, magnitude and optional decimals value with this
    /// format into the tail of the buffer.
    #[verifier::rlimit(100)]
    fn write_parts<'a>(&self, neg: bool, mag: u128, dec: Option<u64>, buffer: &'a mut Vec<u8>) -> (
        r: Option<&'a str>)
        requires
            self.wf(),
        ensures
            write_result_spec(*self, neg, mag as int, dec, old(buffer)@, r, final(buffer)@),
    {
        let ghost b0 = buffer@;
        let ghost c = spec_content(*self, neg, mag as int, dec);
        let pos: usize = match self.write_core(neg, mag, dec, buffer) {
            Some(p) => p,
            None => {
                return None;
            },
        };
        // fill
        let pos2: usize = match self.write_fill_char(pos, buffer) {
            Some(p) => p,
            None => {
                proof {
                    assert(spec_block(*self, mag as int).len() >= 1);
                    assert(c.len() >= 1);
                }
                return None;
            },
        };
        let ghost res = spec_result(*self, neg, mag as int, dec);
        proof {
            assert(spec_block(*self, mag as int).len() >= 1);
            assert(c.len() >= 1);
            lemma_stitch(b0, c, pos as int, pos2 as int);
            if self.width > c.len() {
                assert(buffer@ =~= b0.take(pos2 as int) + res);
            } else {
                assert(buffer@ =~= b0.take(pos2 as int) + res);
            }
            lemma_result_ascii(*self, neg, mag as int, dec);
            assert forall|i: int| pos2 <= i < buffer@.len() implies buffer@[i] < 128 by {
                assert(buffer@[i] == res[i - pos2]);
            }
        }
        let e: usize = buffer.len();
        let s = ascii_str_range(buffer, pos2, e);
        proof {
            assert(buffer@.subrange(pos2 as int, e as int) =~= res);
        }
        Some(s)
    }
}

/// An integer the formatter can take apart into a sign and a
/// magnitude.
pub trait Formattable: Copy + Sized {
    /// The mathematical value.
    spec fn spec_val(self) -> int;

    /// Which values can be taken apart (everything, except the one
    /// value whose negation its own type cannot hold).
    spec fn allowed(self) -> bool;

    /// The sign and the magnitude.
    fn parts(self) -> (r: (bool, u128))
        requires
            self.allowed(),
        ensures
            r.0 == (self.spec_val() < 0),
            r.1 as int == abs_int(self.spec_val()),
    ;
}

impl Formattable for u8 {
    open spec fn spec_val(self) -> int {
        self as int
    }

    open spec fn allowed(self) -> bool {
        true
    }

    fn parts(self) -> (r: (bool, u128)) {
        (false, self as u128)
    }
}

impl Formattable for u16 {
    open spec fn spec_val(self) -> int {
        self as int
    }

    open spec fn allowed(self) -> bool {
        true
    }

    fn parts(self) -> (r: (bool, u128)) {
        (false, self as u128)
    }
}

impl Formattable for u32 {
    open spec fn spec_val(self) -> int {
        self as int
    }

    open spec fn allowed(self) -> bool {
        true
    }

    fn parts(self) -> (r: (bool, u128)) {
        (false, self as u128)
    }
}

impl Formattable for u64 {
    open spec fn spec_val(self) -> int {
        self as int
    }

    open spec fn allowed(self) -> bool {
        true
    }

    fn parts(self) -> (r: (bool, u128)) {
        (false, self as u128)
    }
}

impl Formattable for u128 {
    open spec fn spec_val(self) -> int {
        self as int
    }

    open spec fn allowed(self) -> bool {
        true
    }

    fn parts(self) -> (r: (bool, u128)) {
        (false, self)
    }
}

impl Formattable for i16 {
    open spec fn spec_val(self) -> int {
        self as int
    }

    open spec fn allowed(self) -> bool {
        true
    }

    fn parts(self) -> (r: (bool, u128)) {
        let v: i128 = self as i128;
        if v < 0 {
            (true, (-v) as u128)
        } else {
            (false, v as u128)
        }
    }
}

impl Formattable for i32 {
    open spec fn spec_val(self) -> int {
        self as int
    }

    open spec fn allowed(self) -> bool {
        true
    }

    fn parts(self) -> (r: (bool, u128)) {
        let v: i128 = self as i128;
        if v < 0 {
            (true, (-v) as u128)
        } else {
            (false, v as u128)
        }
    }
}

impl Formattable for i64 {
    open spec fn spec_val(self) -> int {
        self as int
    }

    open spec fn allowed(self) -> bool {
        true
    }

    fn parts(self) -> (r: (bool, u128)) {
        let v: i128 = self as i128;
        if v < 0 {
            (true, (-v) as u128)
        } else {
            (false, v as u128)
        }
    }
}

impl Formattable for i128 {
    open spec fn spec_val(self) -> int {
        self as int
    }

    open spec fn allowed(self) -> bool {
        self != i128::MIN
    }

    fn parts(self) -> (r: (bool, u128)) {
        if self < 0 {
            (true, (-self) as u128)
        } else {
            (false, self as u128)
        }
    }
}

/// Ten to the `k`.
pub open spec fn pow10(k: nat) -> int
    decreases k,
{
    if k == 0 {
        1
    } else {
        10 * pow10((k - 1) as nat)
    }
}

/// A value below ten to the `k` has at most `k` decimal digits.
pub proof fn lemma_digits_len_bound(v: int, k: nat)
    requires
        0 <= v < pow10(k),
        k >= 1,
    ensures
        base_digits(v, 10).len() <= k,
    decreases k,
{
    if v < 10 {
    } else {
        lemma_base_digits_unfold(v, 10);
        assert(pow10(k) == 10 * pow10((k - 1) as nat));
        let y = pow10((k - 1) as nat);
        vstd::arithmetic::div_mod::lemma_div_is_ordered(v, 10 * y - 1, 10);
        vstd::arithmetic::div_mod::lemma_div_multiples_vanish_fancy(y - 1, 9, 10);
        assert(10 * (y - 1) + 9 == 10 * y - 1);
        assert(v / 10 < y);
        lemma_digits_len_bound(v / 10, (k - 1) as nat);
    }
}

impl FormatNumber {
    /// How many decimal digits a value writes.
    pub fn number_of_digits(value: u64) -> (r: u8)
        ensures
            r as int == base_digits(value as int, 10).len(),
    {
        proof {
            reveal_with_fuel(pow10, 21);
            assert(pow10(20) == 100000000000000000000);
            lemma_digits_len_bound(value as int, 20);
        }
        let mut count: u8 = 1;
        let mut v: u64 = value;
        while v >= 10
            invariant
                count >= 1,
                count - 1 + base_digits(v as int, 10).len() == base_digits(value as int, 10).len(),
                base_digits(value as int, 10).len() <= 20,
            decreases v,
    {
            proof {
                lemma_base_digits_unfold(v as int, 10);
                assert(base_digits(v as int, 10).len() >= 1);
            }
            v = v / 10;
            count = count + 1;
        }
        count
    }

    /// Writes an integer with this format into the tail of the buffer
    /// and returns the formatted text, or nothing exactly when the
    /// content or the fill width exceeds the buffer.
    pub fn write_number<'a, T: Formattable>(&self, value: T, output_buffer: &'a mut Vec<u8>) -> (r:
        Option<&'a str>)
        requires
            self.wf(),
            value.allowed(),
        ensures
            write_result_spec(
                *self,
                value.spec_val() < 0,
                abs_int(value.spec_val()),
                Option::None,
                old(output_buffer)@,
                r,
                final(output_buffer)@,
            ),
    {
        let (neg, mag) = value.parts();
        self.write_parts(neg, mag, None, output_buffer)
    }

    /// Writes `value / devider` with the configured number of decimal
    /// places (the fraction digits are truncated, not rounded).  Fails
    /// on a zero divisor, or exactly when the text does not fit.
    pub fn write_fraction<'a, T: Formattable>(
        &self,
        value: T,
        devider: T,
        output_buffer: &'a mut Vec<u8>,
    ) -> (r: Option<&'a str>)
        requires
            self.wf(),
            value.allowed(),
            devider.allowed(),
            self.number_of_decimals == 0 || abs_int(devider.spec_val()) * 100000000
                <= 340282366920938463463374607431768211455,
        ensures
            devider.spec_val() == 0 ==> r is None && final(output_buffer)@ == old(output_buffer)@,
            devider.spec_val() != 0 ==> ({
                let vm = abs_int(value.spec_val());
                let dm = abs_int(devider.spec_val());
                let neg = (value.spec_val() < 0) != (devider.spec_val() < 0);
                let fdec = if self.number_of_decimals == 0 {
                    0int
                } else {
                    (vm % dm) * dec_factor(self.number_of_decimals as int) / dm
                };
                write_result_spec(
                    *self,
                    neg,
                    vm / dm,
                    Option::Some(fdec as u64),
                    old(output_buffer)@,
                    r,
                    final(output_buffer)@,
                )
            }),
    {
        let (vneg, vm) = value.parts();
        let (dneg, dm) = devider.parts();
        if dm == 0 {
            return None;
        }
        let int_mag: u128 = vm / dm;
        let fdec: u64 = if self.number_of_decimals == 0 {
            0
        } else {
            let rem: u128 = vm % dm;
            let factor: u128 = match self.number_of_decimals {
                1 => 10,
                2 => 100,
                3 => 1000,
                4 => 10000,
                5 => 100000,
                6 => 1000000,
                7 => 10000000,
                _ => 100000000,
            };
            proof {
                vstd::arithmetic::mul::lemma_mul_upper_bound(
                    rem as int,
                    dm as int - 1,
                    factor as int,
                    100000000,
                );
                vstd::arithmetic::mul::lemma_mul_is_distributive_sub_other_way(
                    100000000,
                    dm as int,
                    1,
                );
                vstd::arithmetic::mul::lemma_mul_nonnegative(rem as int, factor as int);
            }
            let prod: u128 = rem * factor;
            proof {
                let d = dm as int;
                let f = factor as int;
                vstd::arithmetic::mul::lemma_mul_inequality(rem as int, d - 1, f);
                vstd::arithmetic::mul::lemma_mul_is_distributive_sub_other_way(f, d, 1);
                assert(prod as int <= d * f - 1);
                vstd::arithmetic::div_mod::lemma_div_is_ordered(prod as int, d * f - 1, d);
                vstd::arithmetic::div_mod::lemma_div_multiples_vanish_fancy(f - 1, d - 1, d);
                vstd::arithmetic::mul::lemma_mul_is_distributive_sub(d, f, 1);
                assert(d * (f - 1) + (d - 1) == d * f - 1);
                assert((d * f - 1) / d == f - 1);
                vstd::arithmetic::div_mod::lemma_div_pos_is_pos(prod as int, d);
            }
            let q: u128 = prod / dm;
            q as u64
        };
        let neg: bool = vneg != dneg;
        self.write_parts(neg, int_mag, Some(fdec), output_buffer)
    }
}

/// The scale of a decimals count: ten to its power, capped at eight
/// places.
pub open spec fn dec_factor(nd: int) -> int {
    if nd == 1 {
        10
    } else if nd == 2 {
        100
    } else if nd == 3 {
        1000
    } else if nd == 4 {
        10000
    } else if nd == 5 {
        100000
    } else if nd == 6 {
        1000000
    } else if nd == 7 {
        10000000
    } else {
        100000000
    }
}

} // verus!
