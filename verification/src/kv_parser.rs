//! The key/value parser behind the textual layout descriptions.
//!
//! An input such as `"x:1, y=2, w:10%"` is a comma-separated list of
//! segments.  Every segment holds a key and, after a `=` or `:`
//! separator, a value; blank space around keys and values is ignored and
//! a segment that is blank altogether yields nothing.  A value made of
//! decimal digits (with an optional leading minus) is a number; a number
//! with an optional fraction of one or two digits followed by `%` is a
//! percentage, kept in hundredths of a percent (`10%` gives `1000`);
//! anything else, and any value whose number does not fit the `i32`
//! range, is kept as plain text.  A segment without a separator yields
//! its trimmed text as a key with an empty plain-text value.

use vstd::prelude::*;
use crate::text::{chars_of, is_digit, is_digit_char, is_space, is_space_char, digit_val, string_from_chars};

verus! {

/// How the value of one parsed pair is to be read.
#[derive(Clone, Copy, PartialEq, Eq, Structural, Debug)]
pub enum ValueType {
    Number,
    Percentage,
    String,
}

/// The mathematical content of one parsed pair.
pub struct PairSpec {
    pub key: Seq<char>,
    pub value: Seq<char>,
    pub value_type: ValueType,
    pub num: int,
}

/// One parsed `key = value` pair.
#[derive(PartialEq, Eq, Debug)]
pub struct KeyValuePair {
    pub key: String,
    pub value: String,
    pub numerical_value: i32,
    pub value_type: ValueType,
}

impl View for KeyValuePair {
    type V = PairSpec;

    open spec fn view(&self) -> PairSpec {
        PairSpec {
            key: self.key@,
            value: self.value@,
            value_type: self.value_type,
            num: self.numerical_value as int,
        }
    }
}

/// Internal form of one parsed pair, still as character vectors.
pub struct RawPair {
    pub key: Vec<char>,
    pub value: Vec<char>,
    pub value_type: ValueType,
    pub numerical_value: i32,
}

impl View for RawPair {
    type V = PairSpec;

    open spec fn view(&self) -> PairSpec {
        PairSpec {
            key: self.key@,
            value: self.value@,
            value_type: self.value_type,
            num: self.numerical_value as int,
        }
    }
}

/// The position of the first character satisfying `f`, or the length of
/// the sequence when there is none.
pub open spec fn first_where(s: Seq<char>, f: spec_fn(char) -> bool) -> int
    decreases s.len(),
{
    if s.len() == 0 {
        0
    } else if f(s[0]) {
        0
    } else {
        1 + first_where(s.drop_first(), f)
    }
}

/// What [`first_where`] returns: the least position satisfying `f`.
pub proof fn lemma_first_where(s: Seq<char>, f: spec_fn(char) -> bool)
    ensures
        0 <= first_where(s, f) <= s.len(),
        forall|j: int| 0 <= j < first_where(s, f) ==> !f(s[j]),
        first_where(s, f) < s.len() ==> f(s[first_where(s, f)]),
    decreases s.len(),
{
    if s.len() == 0 {
    } else if f(s[0]) {
    } else {
        lemma_first_where(s.drop_first(), f);
        assert forall|j: int| 0 <= j < first_where(s, f) implies !f(s[j]) by {
            if j > 0 {
                assert(s[j] == s.drop_first()[j - 1]);
            }
        }
    }
}

/// A position with the properties of [`lemma_first_where`] is
/// [`first_where`] itself.
pub proof fn lemma_first_where_is(s: Seq<char>, f: spec_fn(char) -> bool, i: int)
    requires
        0 <= i <= s.len(),
        forall|j: int| 0 <= j < i ==> !f(s[j]),
        i < s.len() ==> f(s[i]),
    ensures
        first_where(s, f) == i,
    decreases s.len(),
{
    if s.len() == 0 {
    } else if f(s[0]) {
        assert(i == 0);
    } else {
        assert(i >= 1);
        assert forall|j: int| 0 <= j < i - 1 implies !f(s.drop_first()[j]) by {
            assert(s.drop_first()[j] == s[j + 1]);
        }
        assert(i - 1 < s.drop_first().len() ==> f(s.drop_first()[i - 1]));
        lemma_first_where_is(s.drop_first(), f, i - 1);
    }
}

pub open spec fn comma_p() -> spec_fn(char) -> bool {
    |c: char| c == ','
}

pub open spec fn sep_p() -> spec_fn(char) -> bool {
    |c: char| c == '=' || c == ':'
}

pub open spec fn nonspace_p() -> spec_fn(char) -> bool {
    |c: char| !is_space(c)
}

pub open spec fn dot_p() -> spec_fn(char) -> bool {
    |c: char| c == '.'
}

/// The number of blank characters at the end of the sequence.
pub open spec fn trail_spaces(s: Seq<char>) -> int
    decreases s.len(),
{
    if s.len() == 0 {
        0
    } else if is_space(s.last()) {
        1 + trail_spaces(s.drop_last())
    } else {
        0
    }
}

pub proof fn lemma_trail_spaces(s: Seq<char>)
    ensures
        0 <= trail_spaces(s) <= s.len(),
        forall|j: int| s.len() - trail_spaces(s) <= j < s.len() ==> is_space(s[j]),
        trail_spaces(s) < s.len() ==> !is_space(s[s.len() - 1 - trail_spaces(s)]),
    decreases s.len(),
{
    if s.len() == 0 {
    } else if is_space(s.last()) {
        lemma_trail_spaces(s.drop_last());
        assert forall|j: int| s.len() - trail_spaces(s) <= j < s.len() implies is_space(s[j]) by {
            if j < s.len() - 1 {
                assert(s[j] == s.drop_last()[j]);
            }
        }
    } else {
    }
}

/// The sequence with blank space removed from both ends.
pub open spec fn trimmed(s: Seq<char>) -> Seq<char> {
    let lead = first_where(s, nonspace_p());
    if lead == s.len() {
        Seq::empty()
    } else {
        s.subrange(lead, s.len() - trail_spaces(s))
    }
}

/// The value of a run of decimal digits.
pub open spec fn dec_val(s: Seq<char>) -> int
    decreases s.len(),
{
    if s.len() == 0 {
        0
    } else {
        dec_val(s.drop_last()) * 10 + digit_val(s.last())
    }
}

/// Whether the sequence is a nonempty run of decimal digits.
pub open spec fn all_digits(s: Seq<char>) -> bool {
    s.len() >= 1 && forall|i: int| 0 <= i < s.len() ==> is_digit(s[i])
}

pub proof fn lemma_dec_val_nonneg(s: Seq<char>)
    requires
        forall|i: int| 0 <= i < s.len() ==> is_digit(s[i]),
    ensures
        dec_val(s) >= 0,
    decreases s.len(),
{
    if s.len() > 0 {
        lemma_dec_val_nonneg(s.drop_last());
        assert(dec_val(s.drop_last()) * 10 >= 0);
    }
}

/// Reading further digits can only grow the value.
pub proof fn lemma_dec_val_prefix(s: Seq<char>, i: int)
    requires
        forall|j: int| 0 <= j < s.len() ==> is_digit(s[j]),
        0 <= i <= s.len(),
    ensures
        dec_val(s) >= dec_val(s.take(i)),
    decreases s.len() - i,
{
    if i == s.len() {
        assert(s.take(i) =~= s);
    } else {
        lemma_dec_val_prefix(s, i + 1);
        assert(s.take(i + 1).drop_last() =~= s.take(i));
        assert(dec_val(s.take(i + 1)) == dec_val(s.take(i)) * 10 + digit_val(s[i]));
        lemma_dec_val_nonneg(s.take(i));
        assert(dec_val(s.take(i)) * 10 >= dec_val(s.take(i)));
    }
}

/// Whether the text is a decimal number with an optional leading minus.
pub open spec fn is_numeric_text(v: Seq<char>) -> bool {
    if v.len() >= 1 && v[0] == '-' {
        all_digits(v.drop_first())
    } else {
        all_digits(v)
    }
}

/// The value of a decimal number text.
pub open spec fn number_val(v: Seq<char>) -> int {
    if v.len() >= 1 && v[0] == '-' {
        -dec_val(v.drop_first())
    } else {
        dec_val(v)
    }
}

/// Whether a percentage body (after the optional sign, before the `%`)
/// is well formed: digits with an optional fraction of one or two
/// digits.
pub open spec fn percent_body_ok(b: Seq<char>) -> bool {
    let dot = first_where(b, dot_p());
    if dot == b.len() {
        all_digits(b)
    } else {
        all_digits(b.take(dot)) && {
            let f = b.skip(dot + 1);
            1 <= f.len() <= 2 && forall|i: int| 0 <= i < f.len() ==> is_digit(f[i])
        }
    }
}

/// The value of a percentage body in hundredths of a percent.
pub open spec fn percent_body_val(b: Seq<char>) -> int {
    let dot = first_where(b, dot_p());
    if dot == b.len() {
        dec_val(b) * 100
    } else {
        let f = b.skip(dot + 1);
        dec_val(b.take(dot)) * 100 + dec_val(f) * (if f.len() == 1 {
            10int
        } else {
            1int
        })
    }
}

/// Whether the text is a percentage: a number with an optional fraction
/// of one or two digits, ending in `%`.
pub open spec fn is_percent_text(v: Seq<char>) -> bool {
    v.len() >= 2 && v.last() == '%' && {
        let b = v.drop_last();
        if b[0] == '-' {
            percent_body_ok(b.drop_first())
        } else {
            percent_body_ok(b)
        }
    }
}

/// The value of a percentage text, in hundredths of a percent.
pub open spec fn percent_val(v: Seq<char>) -> int {
    let b = v.drop_last();
    if b[0] == '-' {
        -percent_body_val(b.drop_first())
    } else {
        percent_body_val(b)
    }
}

pub open spec fn in_i32(v: int) -> bool {
    i32::MIN as int <= v <= i32::MAX as int
}

/// How a trimmed key and value make a pair: a number when the value
/// reads as one and fits the machine range, then a percentage, else
/// plain text.
pub open spec fn classify_pair(k: Seq<char>, v: Seq<char>) -> PairSpec {
    if is_numeric_text(v) && in_i32(number_val(v)) {
        PairSpec { key: k, value: v, value_type: ValueType::Number, num: number_val(v) }
    } else if is_percent_text(v) && in_i32(percent_val(v)) {
        PairSpec { key: k, value: v, value_type: ValueType::Percentage, num: percent_val(v) }
    } else {
        PairSpec { key: k, value: v, value_type: ValueType::String, num: 0 }
    }
}

/// The pair one segment yields: nothing when blank, its trimmed text as
/// a bare key without a separator, a classified pair otherwise.
pub open spec fn seg_pair(seg: Seq<char>) -> Option<PairSpec> {
    let t = trimmed(seg);
    if t.len() == 0 {
        Option::None
    } else {
        let sp = first_where(t, sep_p());
        if sp == t.len() {
            Option::Some(
                PairSpec { key: t, value: Seq::empty(), value_type: ValueType::String, num: 0 },
            )
        } else {
            Option::Some(classify_pair(trimmed(t.take(sp)), trimmed(t.skip(sp + 1))))
        }
    }
}

pub open spec fn opt_pair_seq(o: Option<PairSpec>) -> Seq<PairSpec> {
    match o {
        Option::Some(p) => seq![p],
        Option::None => Seq::empty(),
    }
}

/// All pairs of a comma-separated parameter list, in order.  (The
/// bounding of the comma position is vacuous — see
/// [`lemma_first_where`] — and only justifies the recursion measure.)
pub open spec fn pairs_of(s: Seq<char>) -> Seq<PairSpec>
    decreases s.len(),
{
    let fc0 = first_where(s, comma_p());
    let fc = if 0 <= fc0 <= s.len() {
        fc0
    } else {
        0
    };
    if fc >= s.len() {
        opt_pair_seq(seg_pair(s))
    } else {
        opt_pair_seq(seg_pair(s.take(fc))) + pairs_of(s.skip(fc + 1))
    }
}

/// Finds, inside the window `[from, to)` of `v`, the first comma (`kind`
/// 0), key/value separator (`kind` 1), non-blank character (`kind` 2) or
/// dot (`kind` 3).
#[verifier::loop_isolation(false)]
fn find_in_window(v: &Vec<char>, from: usize, to: usize, kind: u8) -> (r: usize)
    requires
        from <= to <= v@.len(),
        kind < 4,
    ensures
        from <= r <= to,
        r - from == first_where(
            v@.subrange(from as int, to as int),
            if kind == 0 {
                comma_p()
            } else if kind == 1 {
                sep_p()
            } else if kind == 2 {
                nonspace_p()
            } else {
                dot_p()
            },
        ),
{
    let ghost w = v@.subrange(from as int, to as int);
    let ghost f = if kind == 0 {
        comma_p()
    } else if kind == 1 {
        sep_p()
    } else if kind == 2 {
        nonspace_p()
    } else {
        dot_p()
    };
    let mut i: usize = from;
    while i < to
        invariant
            from <= i <= to <= v@.len(),
            w == v@.subrange(from as int, to as int),
            forall|j: int| 0 <= j < i - from ==> !f(w[j]),
        decreases to - i,
    {
        let c: char = v[i];
        let hit: bool = if kind == 0 {
            c == ','
        } else if kind == 1 {
            c == '=' || c == ':'
        } else if kind == 2 {
            !is_space_char(c)
        } else {
            c == '.'
        };
        if hit {
            proof {
                assert(w[i - from] == c);
                assert(f(w[i - from]));
                lemma_first_where_is(w, f, i - from);
            }
            return i;
        }
        proof {
            assert(w[i - from] == c);
        }
        i = i + 1;
    }
    proof {
        lemma_first_where_is(w, f, to - from);
    }
    to
}

/// The number of trailing blanks of the window `[from, to)` of `v`.
#[verifier::loop_isolation(false)]
fn trail_in_window(v: &Vec<char>, from: usize, to: usize) -> (r: usize)
    requires
        from <= to <= v@.len(),
    ensures
        r <= to - from,
        r == trail_spaces(v@.subrange(from as int, to as int)),
{
    let ghost w = v@.subrange(from as int, to as int);
    proof {
        assert(w.take(to - from) =~= w);
    }
    let mut i: usize = to;
    while i > from
        invariant
            from <= i <= to <= v@.len(),
            w == v@.subrange(from as int, to as int),
            trail_spaces(w) == (to - i) + trail_spaces(w.take(i - from)),
            forall|j: int| i - from <= j < w.len() ==> is_space(w[j]),
        decreases i - from,
    {
        let c: char = v[i - 1];
        proof {
            assert(w[i - 1 - from] == c);
            assert(w.take(i - from).last() == c);
            assert(w.take(i - from).drop_last() =~= w.take(i - 1 - from));
        }
        if !is_space_char(c) {
            proof {
                assert(trail_spaces(w.take(i - from)) == 0);
            }
            return to - i;
        }
        i = i - 1;
    }
    proof {
        assert(w.take(0) =~= Seq::<char>::empty());
    }
    to - from
}

/// A copy of the window `[from, to)` of `v`.
#[verifier::loop_isolation(false)]
fn copy_window(v: &Vec<char>, from: usize, to: usize) -> (r: Vec<char>)
    requires
        from <= to <= v@.len(),
    ensures
        r@ == v@.subrange(from as int, to as int),
{
    let mut r: Vec<char> = Vec::new();
    let mut i: usize = from;
    while i < to
        invariant
            from <= i <= to <= v@.len(),
            r@ == v@.subrange(from as int, i as int),
        decreases to - i,
    {
        r.push(v[i]);
        i = i + 1;
        proof {
            assert(r@ =~= v@.subrange(from as int, i as int));
        }
    }
    r
}

/// Reads the window `[from, to)` as a decimal number, when it is one
/// whose value fits the `i32` range.
#[verifier::loop_isolation(false)]
fn parse_number_window(v: &Vec<char>, from: usize, to: usize) -> (r: Option<i32>)
    requires
        from <= to <= v@.len(),
    ensures
        ({
            let w = v@.subrange(from as int, to as int);
            if is_numeric_text(w) && in_i32(number_val(w)) {
                r == Option::Some(number_val(w) as i32)
            } else {
                r is None
            }
        }),
{
    let ghost w = v@.subrange(from as int, to as int);
    if from == to {
        return None;
    }
    let neg: bool = v[from] == '-';
    let start: usize = if neg {
        from + 1
    } else {
        from
    };
    let ghost d = if neg {
        w.drop_first()
    } else {
        w
    };
    proof {
        assert(w[0] == v@[from as int]);
        assert(d =~= v@.subrange(start as int, to as int));
    }
    if start == to {
        // a bare minus is not a number
        return None;
    }
    let mut acc: i64 = 0;
    let mut i: usize = start;
    while i < to
        invariant
            from <= start <= i <= to <= v@.len(),
            d == v@.subrange(start as int, to as int),
            forall|j: int| 0 <= j < i - start ==> is_digit(d[j]),
            acc == dec_val(d.take(i - start)),
            0 <= acc <= 0x8000_0000,
        decreases to - i,
    {
        let c: char = v[i];
        proof {
            assert(d[i - start] == c);
        }
        if !is_digit_char(c) {
            return None;
        }
        proof {
            assert(d.take(i + 1 - start).drop_last() =~= d.take(i - start));
            assert(d.take(i + 1 - start).last() == c);
        }
        let dv: i64 = (c as u32 - 48) as i64;
        acc = acc * 10 + dv;
        i = i + 1;
        if acc > 0x8000_0000 {
            // too large for the machine range whatever follows
            proof {
                if is_numeric_text(w) {
                    assert(all_digits(d));
                    lemma_dec_val_prefix(d, i - start);
                    assert(dec_val(d) >= acc);
                }
            }
            return None;
        }
    }
    proof {
        assert(d.take(to - start) =~= d);
        assert(all_digits(d));
        assert(is_numeric_text(w));
    }
    if neg {
        Some((-acc) as i32)
    } else {
        if acc > 0x7FFF_FFFF {
            None
        } else {
            Some(acc as i32)
        }
    }
}

/// Reads the window `[from, to)` as a percentage, when it is one whose
/// value in hundredths of a percent fits the `i32` range.
#[verifier::rlimit(60)]
#[verifier::loop_isolation(false)]
fn parse_percent_window(v: &Vec<char>, from: usize, to: usize) -> (r: Option<i32>)
    requires
        from <= to <= v@.len(),
    ensures
        ({
            let w = v@.subrange(from as int, to as int);
            if is_percent_text(w) && in_i32(percent_val(w)) {
                r == Option::Some(percent_val(w) as i32)
            } else {
                r is None
            }
        }),
{
    let ghost w = v@.subrange(from as int, to as int);
    if to - from < 2 {
        return None;
    }
    if v[to - 1] != '%' {
        return None;
    }
    proof {
        assert(w.last() == '%');
        assert(w.drop_last() =~= v@.subrange(from as int, to as int - 1));
    }
    let body_end: usize = to - 1;
    let neg: bool = v[from] == '-';
    let start: usize = if neg {
        from + 1
    } else {
        from
    };
    let ghost b = if neg {
        w.drop_last().drop_first()
    } else {
        w.drop_last()
    };
    proof {
        assert(w[0] == v@[from as int]);
        assert(w.drop_last()[0] == w[0]);
        assert(b =~= v@.subrange(start as int, body_end as int));
    }
    if start == body_end {
        return None;
    }
    // the integer digits, up to a dot or the end of the body
    let dot: usize = find_in_window(v, start, body_end, 3);
    proof {
        assert(b.take(dot - start) =~= v@.subrange(start as int, dot as int));
        lemma_first_where(b, dot_p());
    }
    if dot == start {
        // no digit before the dot (or an immediate dot)
        if v[start] == '.' {
            return None;
        }
        proof {
            assert(b[0] == v@[start as int]);
        }
        return None;
    }
    let mut acc: i64 = 0;
    let mut i: usize = start;
    while i < dot
        invariant
            start <= i <= dot <= body_end <= v@.len(),
            b == v@.subrange(start as int, body_end as int),
            dot - start <= b.len(),
            forall|j: int| 0 <= j < i - start ==> is_digit(b[j]),
            acc == dec_val(b.take(i - start)),
            0 <= acc <= 0x8000_0000,
        decreases dot - i,
    {
        let c: char = v[i];
        proof {
            assert(b[i - start] == c);
        }
        if !is_digit_char(c) {
            return None;
        }
        proof {
            assert(b.take(i + 1 - start).drop_last() =~= b.take(i - start));
            assert(b.take(i + 1 - start).last() == c);
        }
        let dv: i64 = (c as u32 - 48) as i64;
        acc = acc * 10 + dv;
        i = i + 1;
        if acc > 0x8000_0000 {
            proof {
                let intp = b.take(dot - start);
                if is_percent_text(w) {
                    assert(percent_body_ok(b));
                    assert(forall|j: int| 0 <= j < intp.len() ==> is_digit(intp[j]));
                    assert(intp.take(i - start) =~= b.take(i - start));
                    lemma_dec_val_prefix(intp, i - start);
                    lemma_dec_val_nonneg(intp);
                    assert(dec_val(intp) >= acc);
                    if dot - start < b.len() {
                        let f = b.skip(dot - start + 1);
                        lemma_dec_val_nonneg(f);
                        assert(percent_body_val(b) >= dec_val(intp) * 100);
                    }
                }
            }
            return None;
        }
    }
    // the fraction digits, when a dot is present
    let mut frac: i64 = 0;
    let ghost fseq = if dot < body_end {
        b.skip(dot - start + 1)
    } else {
        Seq::<char>::empty()
    };
    if dot < body_end {
        let flen: usize = body_end - dot - 1;
        if flen < 1 || flen > 2 {
            return None;
        }
        proof {
            assert(fseq =~= v@.subrange(dot as int + 1, body_end as int));
        }
        let mut j: usize = dot + 1;
        while j < body_end
            invariant
                dot + 1 <= j <= body_end <= v@.len(),
                fseq == v@.subrange(dot as int + 1, body_end as int),
                forall|k: int| 0 <= k < j - dot - 1 ==> is_digit(fseq[k]),
                frac == dec_val(fseq.take(j - dot - 1)),
                0 <= frac,
                frac <= (if j - dot - 1 == 0 {
                    0int
                } else if j - dot - 1 == 1 {
                    9int
                } else {
                    99int
                }),
                body_end - dot - 1 <= 2,
            decreases body_end - j,
        {
            let c: char = v[j];
            proof {
                assert(fseq[j - dot - 1] == c);
            }
            if !is_digit_char(c) {
                return None;
            }
            proof {
                assert(fseq.take(j - dot).drop_last() =~= fseq.take(j - dot - 1));
                assert(fseq.take(j - dot).last() == c);
            }
            let dv: i64 = (c as u32 - 48) as i64;
            frac = frac * 10 + dv;
            j = j + 1;
        }
        if flen == 1 {
            frac = frac * 10;
        }
        proof {
            assert(fseq.take(body_end - dot - 1) =~= fseq);
        }
    }
    proof {
        assert(b.take(dot - start) =~= v@.subrange(start as int, dot as int));
        if dot == body_end {
            assert(b.take(dot - start) =~= b);
        }
        assert(percent_body_ok(b));
        assert(is_percent_text(w));
    }
    let total: i64 = acc * 100 + frac;
    proof {
        assert(total == percent_body_val(b));
    }
    if neg {
        if total > 0x8000_0000 {
            return None;
        }
        Some((-total) as i32)
    } else {
        if total > 0x7FFF_FFFF {
            return None;
        }
        Some(total as i32)
    }
}

/// The pair the window `[from, to)` yields, if any.
#[verifier::rlimit(30)]
fn seg_pair_window(v: &Vec<char>, from: usize, to: usize) -> (r: Option<RawPair>)
    requires
        from <= to <= v@.len(),
    ensures
        ({
            let sp = seg_pair(v@.subrange(from as int, to as int));
            match r {
                Option::Some(p) => sp == Option::Some(p@),
                Option::None => sp is None,
            }
        }),
{
    let ghost seg = v@.subrange(from as int, to as int);
    let lead: usize = find_in_window(v, from, to, 2);
    if lead == to {
        return None;
    }
    let trail: usize = trail_in_window(v, from, to);
    proof {
        lemma_first_where(seg, nonspace_p());
        lemma_trail_spaces(seg);
        assert(!is_space(seg[lead - from]));
        assert(to - trail - from > lead - from);
    }
    let a: usize = lead;
    let b: usize = to - trail;
    let ghost t = trimmed(seg);
    proof {
        assert(t =~= v@.subrange(a as int, b as int));
    }
    let sp: usize = find_in_window(v, a, b, 1);
    if sp == b {
        let key = copy_window(v, a, b);
        return Some(
            RawPair { key, value: Vec::new(), value_type: ValueType::String, numerical_value: 0 },
        );
    }
    // key part: [a, sp) trimmed again at its end (its start is already
    // non-blank or empty)
    let ktrail: usize = trail_in_window(v, a, sp);
    let klead: usize = find_in_window(v, a, sp, 2);
    let ghost kt = trimmed(t.take(sp - a));
    proof {
        assert(t.take(sp - a) =~= v@.subrange(a as int, sp as int));
        lemma_first_where(v@.subrange(a as int, sp as int), nonspace_p());
        lemma_trail_spaces(v@.subrange(a as int, sp as int));
        if klead < sp {
            assert(kt =~= v@.subrange(klead as int, sp as int - ktrail));
        } else {
            assert(kt =~= v@.subrange(klead as int, klead as int));
        }
    }
    let kend: usize = if klead == sp {
        klead
    } else {
        sp - ktrail
    };
    let key = copy_window(v, klead, kend);
    // value part: [sp + 1, b) trimmed
    let vlead: usize = find_in_window(v, sp + 1, b, 2);
    let vtrail: usize = trail_in_window(v, sp + 1, b);
    let ghost vt = trimmed(t.skip(sp - a + 1));
    proof {
        assert(t.skip(sp - a + 1) =~= v@.subrange(sp as int + 1, b as int));
        lemma_first_where(v@.subrange(sp as int + 1, b as int), nonspace_p());
        lemma_trail_spaces(v@.subrange(sp as int + 1, b as int));
        if vlead < b {
            assert(vt =~= v@.subrange(vlead as int, b as int - vtrail));
        } else {
            assert(vt =~= v@.subrange(vlead as int, vlead as int));
        }
    }
    let vend: usize = if vlead == b {
        vlead
    } else {
        b - vtrail
    };
    let value = copy_window(v, vlead, vend);
    let num = parse_number_window(v, vlead, vend);
    match num {
        Some(n) => Some(
            RawPair { key, value, value_type: ValueType::Number, numerical_value: n },
        ),
        None => {
            let pct = parse_percent_window(v, vlead, vend);
            match pct {
                Some(n) => Some(
                    RawPair { key, value, value_type: ValueType::Percentage, numerical_value: n },
                ),
                None => Some(
                    RawPair { key, value, value_type: ValueType::String, numerical_value: 0 },
                ),
            }
        },
    }
}

/// All pairs of the window `[from, to)`, in order.
fn parse_window(v: &Vec<char>, from: usize, to: usize) -> (r: Vec<RawPair>)
    requires
        from <= to <= v@.len(),
    ensures
        r@.map_values(|p: RawPair| p@) == pairs_of(v@.subrange(from as int, to as int)),
    decreases to - from,
{
    let ghost w = v@.subrange(from as int, to as int);
    let fc: usize = find_in_window(v, from, to, 0);
    proof {
        lemma_first_where(w, comma_p());
    }
    if fc == to {
        let head = seg_pair_window(v, from, to);
        let mut r: Vec<RawPair> = Vec::new();
        match head {
            Some(p) => {
                r.push(p);
            },
            None => {},
        }
        proof {
            assert(r@.map_values(|p: RawPair| p@) =~= pairs_of(w));
        }
        r
    } else {
        let head = seg_pair_window(v, from, fc);
        let mut r: Vec<RawPair> = Vec::new();
        match head {
            Some(p) => {
                r.push(p);
            },
            None => {},
        }
        let mut rest = parse_window(v, fc + 1, to);
        proof {
            assert(w.take(fc - from) =~= v@.subrange(from as int, fc as int));
            assert(w.skip(fc - from + 1) =~= v@.subrange(fc as int + 1, to as int));
        }
        let ghost before = r@;
        r.append(&mut rest);
        proof {
            assert(r@.map_values(|p: RawPair| p@) =~= pairs_of(w));
        }
        r
    }
}

/// All pairs of a parameter list at once, still as character vectors.
pub fn parse_pairs(text: &str) -> (r: Vec<RawPair>)
    ensures
        r@.map_values(|p: RawPair| p@) == pairs_of(text@),
{
    let chars = chars_of(text);
    proof {
        assert(chars@.subrange(0, chars@.len() as int) =~= text@);
    }
    parse_window(&chars, 0, chars.len())
}

/// A parser over a comma-separated `key = value` list: after
/// construction, [`KeyValueParser::next`] hands the pairs out in order.
pub struct KeyValueParser {
    pairs: Vec<RawPair>,
    idx: usize,
}

impl KeyValueParser {
    /// The pairs of the parsed text, as mathematical values.
    pub closed spec fn pairs_view(&self) -> Seq<PairSpec> {
        self.pairs@.map_values(|p: RawPair| p@)
    }

    /// How many pairs have been handed out already.
    pub closed spec fn position(&self) -> int {
        self.idx as int
    }

    /// Parses the whole text at once.
    pub fn new(text: &str) -> (r: KeyValueParser)
        ensures
            r.pairs_view() == pairs_of(text@),
            r.position() == 0,
    {
        let chars = chars_of(text);
        proof {
            assert(chars@.subrange(0, chars@.len() as int) =~= text@);
        }
        let pairs = parse_window(&chars, 0, chars.len());
        KeyValueParser { pairs, idx: 0 }
    }

    /// Hands out the next pair, or nothing once all pairs are gone.
    pub fn next(&mut self) -> (r: Option<KeyValuePair>)
        ensures
            final(self).pairs_view() == old(self).pairs_view(),
            if old(self).position() < old(self).pairs_view().len() {
                &&& final(self).position() == old(self).position() + 1
                &&& match r {
                    Option::Some(p) => p@ == old(self).pairs_view()[old(self).position()],
                    Option::None => false,
                }
            } else {
                r is None && final(self).position() == old(self).position()
            },
    {
        if self.idx < self.pairs.len() {
            let p = &self.pairs[self.idx];
            let key = string_from_chars(&p.key);
            let value = string_from_chars(&p.value);
            let out = KeyValuePair {
                key,
                value,
                numerical_value: p.numerical_value,
                value_type: p.value_type,
            };
            self.idx = self.idx + 1;
            Some(out)
        } else {
            None
        }
    }
}

} // verus!
