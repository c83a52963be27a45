//! Rating displays: a `value/max` report and a fixed-width bar of full
//! and empty marks.

use vstd::prelude::*;
use crate::format_number::{ascii_str_range, base_digits, bytes_chars, lemma_base_digits_ascii};

verus! {

/// One full mark for every whole share of `max` among `count` places.
pub open spec fn filled_marks(value: int, max: int, count: int) -> int {
    if max == 0 {
        0
    } else {
        let k = value * count / max;
        if k > count {
            count
        } else {
            k
        }
    }
}

/// `k` copies of the byte of an ASCII character.
pub open spec fn char_run(c: char, k: int) -> Seq<u8> {
    Seq::new(k as nat, |i: int| c as u8)
}

/// Rating texts, written into the front of a caller buffer.
pub struct FormatRatings;

impl FormatRatings {
    /// Writes `value/max`; fails exactly when that text does not fit
    /// the buffer.
    pub fn raport<'a>(value: u32, max: u32, buf: &'a mut Vec<u8>) -> (r: Option<&'a str>)
        ensures
            final(buf)@.len() == old(buf)@.len(),
            ({
                let t = base_digits(value as int, 10) + seq![47u8] + base_digits(max as int, 10);
                if t.len() <= old(buf)@.len() {
                    match r {
                        Option::Some(s) => s@ == bytes_chars(t) && final(buf)@ == t + old(
                            buf,
                        )@.skip(t.len() as int),
                        Option::None => false,
                    }
                } else {
                    r is None && final(buf)@ == old(buf)@
                }
            }),
    {
        let ghost t = base_digits(value as int, 10) + seq![47u8] + base_digits(max as int, 10);
        let mut text: Vec<u8> = Vec::new();
        push_decimal(value, &mut text);
        text.push(47u8);
        push_decimal(max, &mut text);
        proof {
            assert(text@ =~= t);
        }
        if text.len() > buf.len() {
            return None;
        }
        splice_front(buf, &text);
        let n: usize = text.len();
        proof {
            lemma_base_digits_ascii(value as int, 10);
            lemma_base_digits_ascii(max as int, 10);
            assert forall|i: int| 0 <= i < n implies buf@[i] < 128 by {
                assert(buf@[i] == t[i]);
                if i < base_digits(value as int, 10).len() {
                    assert(t[i] == base_digits(value as int, 10)[i]);
                } else if i == base_digits(value as int, 10).len() {
                    assert(t[i] == 47u8);
                } else {
                    assert(t[i] == base_digits(max as int, 10)[i - base_digits(
                        value as int,
                        10,
                    ).len() - 1]);
                }
            }
            assert(final(buf)@ =~= t + old(buf)@.skip(t.len() as int));
        }
        let s = ascii_str_range(buf, 0, n);
        proof {
            assert(buf@.subrange(0, n as int) =~= t);
        }
        Some(s)
    }

    /// Writes a bar of `count` marks, the first `value/max` share of
    /// them full; fails exactly when `count` exceeds the buffer.
    pub fn two_chars<'a>(
        empty_char: char,
        full_char: char,
        value: u32,
        max: u32,
        count: u32,
        buf: &'a mut Vec<u8>,
    ) -> (r: Option<&'a str>)
        requires
            (empty_char as int) < 128,
            (full_char as int) < 128,
        ensures
            final(buf)@.len() == old(buf)@.len(),
            ({
                let k = filled_marks(value as int, max as int, count as int);
                let t = char_run(full_char, k) + char_run(empty_char, count - k);
                if count <= old(buf)@.len() {
                    match r {
                        Option::Some(s) => s@ == bytes_chars(t) && final(buf)@ == t + old(
                            buf,
                        )@.skip(count as int),
                        Option::None => false,
                    }
                } else {
                    r is None && final(buf)@ == old(buf)@
                }
            }),
    {
        if (count as usize) > buf.len() {
            return None;
        }
        let filled: u32 = if max == 0 {
            0
        } else {
            proof {
                vstd::arithmetic::mul::lemma_mul_upper_bound(
                    value as int,
                    0xFFFF_FFFF,
                    count as int,
                    0xFFFF_FFFF,
                );
                vstd::arithmetic::mul::lemma_mul_nonnegative(value as int, count as int);
            }
            let f: u64 = (value as u64) * (count as u64) / (max as u64);
            proof {
                vstd::arithmetic::div_mod::lemma_div_pos_is_pos(
                    value as int * count as int,
                    max as int,
                );
            }
            if f > count as u64 {
                count
            } else {
                f as u32
            }
        };
        let ghost k = filled_marks(value as int, max as int, count as int);
        let ghost t = char_run(full_char, k) + char_run(empty_char, count as int - k);
        let mut text: Vec<u8> = Vec::new();
        let mut i: u32 = 0;
        while i < filled
            invariant
                i <= filled,
                (full_char as int) < 128,
                text@ =~= char_run(full_char, i as int),
            decreases filled - i,
        {
            text.push(full_char as u8);
            i = i + 1;
            proof {
                assert(text@ =~= char_run(full_char, i as int));
            }
        }
        while i < count
            invariant
                filled <= i <= count || (count < filled && i == filled),
                filled == k,
                i >= filled,
                (empty_char as int) < 128,
                (full_char as int) < 128,
                text@ =~= char_run(full_char, filled as int) + char_run(
                    empty_char,
                    i as int - filled,
                ),
            decreases count - i,
        {
            text.push(empty_char as u8);
            i = i + 1;
            proof {
                assert(text@ =~= char_run(full_char, filled as int) + char_run(
                    empty_char,
                    i as int - filled,
                ));
            }
        }
        proof {
            assert(text@ =~= t);
        }
        splice_front(buf, &text);
        let n: usize = count as usize;
        proof {
            assert forall|i2: int| 0 <= i2 < n implies buf@[i2] < 128 by {
                assert(buf@[i2] == t[i2]);
                if i2 < k {
                    assert(t[i2] == full_char as u8);
                } else {
                    assert(t[i2] == empty_char as u8);
                }
            }
            assert(final(buf)@ =~= t + old(buf)@.skip(count as int));
        }
        let s = ascii_str_range(buf, 0, n);
        proof {
            assert(buf@.subrange(0, n as int) =~= t);
        }
        Some(s)
    }
}

/// Appends the decimal digits of `value`.
fn push_decimal(value: u32, out: &mut Vec<u8>)
    ensures
        final(out)@ == old(out)@ + base_digits(value as int, 10),
    decreases value,
{
    if value >= 10 {
        proof {
            crate::format_number::lemma_base_digits_unfold(value as int, 10);
        }
        push_decimal(value / 10, out);
    }
    out.push(48 + (value % 10) as u8);
    proof {
        assert(final(out)@ =~= old(out)@ + base_digits(value as int, 10));
    }
}

/// Overwrites the front of `buf` with the whole of `block`.
fn splice_front(buf: &mut Vec<u8>, block: &Vec<u8>)
    requires
        block@.len() <= old(buf)@.len(),
    ensures
        final(buf)@.len() == old(buf)@.len(),
        final(buf)@ == block@ + old(buf)@.skip(block@.len() as int),
        forall|i: int| 0 <= i < block@.len() ==> final(buf)@[i] == block@[i],
{
    let total: usize = buf.len();
    let mut j: usize = 0;
    while j < block.len()
        invariant
            j <= block@.len(),
            block@.len() <= old(buf)@.len(),
            total == old(buf)@.len(),
            buf@.len() == old(buf)@.len(),
            buf@ == block@.take(j as int) + old(buf)@.skip(j as int),
        decreases block@.len() - j,
    {
        buf[j] = block[j];
        j = j + 1;
        proof {
            assert(buf@ =~= block@.take(j as int) + old(buf)@.skip(j as int));
        }
    }
    proof {
        assert(buf@ =~= block@ + old(buf)@.skip(block@.len() as int));
    }
}

} // verus!
