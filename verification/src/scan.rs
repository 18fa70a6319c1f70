//! Reading runs of ASCII digits.

use vstd::prelude::*;
use vstd::string::StringSliceAdditionalSpecFns;

use crate::ascii::{DIGIT_0, DIGIT_9};

verus! {

/// `b` is one of the ASCII digits `0` to `9`.
pub open spec fn is_digit(b: u8) -> bool {
    DIGIT_0 <= b <= DIGIT_9
}

/// The index just past the run of digits that starts at `from`; `from`
/// itself where no digit stands there.
pub open spec fn digits_end(text: Seq<u8>, from: int) -> int
    decreases text.len() - from,
{
    if 0 <= from < text.len() && is_digit(text[from]) {
        digits_end(text, from + 1)
    } else {
        from
    }
}

/// The digits that a text of ASCII digits writes, as numbers from 0 to 9.
pub open spec fn numeric(text: Seq<u8>) -> Seq<u8> {
    Seq::new(text.len(), |i: int| (text[i] - DIGIT_0) as u8)
}

/// The number that a sequence of digits writes, most significant first.
pub open spec fn digits_value(digits: Seq<u8>) -> nat
    decreases digits.len(),
{
    if digits.len() == 0 {
        0
    } else {
        digits_value(digits.drop_last()) * 10 + digits.last() as nat
    }
}

/// Every element is a decimal digit.
pub open spec fn all_digits(digits: Seq<u8>) -> bool {
    forall|i: int| 0 <= i < digits.len() ==> #[trigger] digits[i] <= 9
}

/// The number that a text writes when it is one or more ASCII digits and
/// nothing else.
pub open spec fn unsigned_of(text: Seq<u8>) -> Option<nat> {
    if text.len() > 0 && digits_end(text, 0) == text.len() {
        Some(digits_value(numeric(text)))
    } else {
        None
    }
}

/// Appending a digit multiplies by ten and adds the digit.
pub proof fn lemma_digits_value_push(digits: Seq<u8>, d: u8)
    ensures
        digits_value(digits.push(d)) == digits_value(digits) * 10 + d as nat,
{
    assert(digits.push(d).drop_last() =~= digits);
}

/// A run of digits stays within the text, holds digits only, and ends
/// before anything that is no digit.
pub proof fn lemma_digits_end_bounds(text: Seq<u8>, from: int)
    requires
        0 <= from <= text.len(),
    ensures
        from <= digits_end(text, from) <= text.len(),
        forall|i: int| from <= i < digits_end(text, from) ==> is_digit(#[trigger] text[i]),
        digits_end(text, from) < text.len() ==> !is_digit(text[digits_end(text, from)]),
    decreases text.len() - from,
{
    if from < text.len() && is_digit(text[from]) {
        lemma_digits_end_bounds(text, from + 1);
    }
}

/// Reads the run of digits that starts at `from` and appends their values
/// to `out`. Returns the index just past the run.
pub(crate) fn scan_digits(bytes: &[u8], from: usize, out: &mut Vec<u8>) -> (end: usize)
    requires
        from <= bytes@.len(),
        all_digits(old(out)@),
    ensures
        end == digits_end(bytes@, from as int),
        from <= end <= bytes@.len(),
        final(out)@ == old(out)@ + numeric(bytes@.subrange(from as int, end as int)),
        all_digits(final(out)@),
{
    let n = bytes.len();
    let mut i: usize = from;
    proof {
        assert(numeric(bytes@.subrange(from as int, from as int)) =~= Seq::<u8>::empty());
        assert(old(out)@ + Seq::<u8>::empty() =~= old(out)@);
    }
    while i < n && DIGIT_0 <= bytes[i] && bytes[i] <= DIGIT_9
        invariant
            from <= i <= n,
            n == bytes@.len(),
            digits_end(bytes@, from as int) == digits_end(bytes@, i as int),
            out@ == old(out)@ + numeric(bytes@.subrange(from as int, i as int)),
            all_digits(out@),
        decreases n - i,
    {
        let d: u8 = bytes[i] - DIGIT_0;
        out.push(d);
        proof {
            let before = bytes@.subrange(from as int, i as int);
            let after = bytes@.subrange(from as int, i + 1);
            assert(after =~= before.push(bytes@[i as int]));
            assert(numeric(after) =~= numeric(before).push(d));
            assert(old(out)@ + numeric(after) =~= (old(out)@ + numeric(before)).push(d));
        }
        i = i + 1;
    }
    i
}

/// Reads the run of digits that starts at `from` as a number no larger
/// than `cap`. Returns the index just past the run, and the number unless
/// it is above `cap`.
pub(crate) fn scan_number(bytes: &[u8], from: usize, cap: u64) -> (r: (usize, Option<u64>))
    requires
        from <= bytes@.len(),
        cap <= (u64::MAX - 9) / 10,
    ensures
        r.0 == digits_end(bytes@, from as int),
        from <= r.0 <= bytes@.len(),
        r.1 == (if digits_value(numeric(bytes@.subrange(from as int, r.0 as int))) <= cap {
            Some(digits_value(numeric(bytes@.subrange(from as int, r.0 as int))) as u64)
        } else {
            None
        }),
{
    let n = bytes.len();
    let mut i: usize = from;
    let mut value: Option<u64> = Some(0);
    proof {
        assert(numeric(bytes@.subrange(from as int, from as int)) =~= Seq::<u8>::empty());
    }
    while i < n && DIGIT_0 <= bytes[i] && bytes[i] <= DIGIT_9
        invariant
            from <= i <= n,
            n == bytes@.len(),
            cap <= (u64::MAX - 9) / 10,
            digits_end(bytes@, from as int) == digits_end(bytes@, i as int),
            value == (if digits_value(numeric(bytes@.subrange(from as int, i as int))) <= cap {
                Some(digits_value(numeric(bytes@.subrange(from as int, i as int))) as u64)
            } else {
                None
            }),
        decreases n - i,
    {
        let d: u8 = bytes[i] - DIGIT_0;
        proof {
            let before = bytes@.subrange(from as int, i as int);
            let after = bytes@.subrange(from as int, i + 1);
            assert(after =~= before.push(bytes@[i as int]));
            assert(numeric(after) =~= numeric(before).push(d));
            lemma_digits_value_push(numeric(before), d);
        }
        value = match value {
            Some(v) => {
                let next: u64 = v * 10 + d as u64;
                if next <= cap {
                    Some(next)
                } else {
                    None
                }
            },
            None => None,
        };
        i = i + 1;
    }
    (i, value)
}

/// Reads a text of one or more ASCII digits as a number.
///
/// `None` where the text is empty, holds anything but digits, or writes a
/// number above `u64::MAX`.
pub fn parse_u64(text: &str) -> (r: Option<u64>)
    ensures
        r == match unsigned_of(text.spec_bytes()) {
            Some(n) => if n <= u64::MAX {
                Some(n as u64)
            } else {
                None
            },
            None => None,
        },
{
    let bytes = text.as_bytes();
    let n = bytes.len();
    let mut i: usize = 0;
    let mut value: u64 = 0;
    let ghost s = bytes@;
    proof {
        assert(numeric(s.subrange(0, 0)) =~= Seq::<u8>::empty());
    }
    while i < n && DIGIT_0 <= bytes[i] && bytes[i] <= DIGIT_9
        invariant
            i <= n,
            n == s.len(),
            s == bytes@,
            s == text.spec_bytes(),
            digits_end(s, 0) == digits_end(s, i as int),
            value == digits_value(numeric(s.subrange(0, i as int))),
        decreases n - i,
    {
        let d: u8 = bytes[i] - DIGIT_0;
        proof {
            let before = s.subrange(0, i as int);
            let after = s.subrange(0, i + 1);
            assert(after =~= before.push(s[i as int]));
            assert(numeric(after) =~= numeric(before).push(d));
            lemma_digits_value_push(numeric(before), d);
        }
        if value > (u64::MAX - d as u64) / 10 {
            proof {
                // The prefix read so far is already too large; the digits
                // that follow only make the number larger.
                lemma_digits_end_bounds(s, i + 1);
                assert(value * 10 + d > u64::MAX);
                lemma_value_grows(s, i + 1, digits_end(s, 0));
                if digits_end(s, 0) == n {
                    assert(s.subrange(0, n as int) =~= s);
                }
            }
            return None;
        }
        value = value * 10 + d as u64;
        i = i + 1;
    }
    if i == n && n > 0 {
        proof {
            assert(s.subrange(0, n as int) =~= s);
        }
        Some(value)
    } else {
        None
    }
}

/// The number written by a longer prefix of a digit text is no smaller.
proof fn lemma_value_grows(text: Seq<u8>, shorter: int, longer: int)
    requires
        0 <= shorter <= longer <= text.len(),
    ensures
        digits_value(numeric(text.subrange(0, shorter))) <= digits_value(
            numeric(text.subrange(0, longer)),
        ),
    decreases longer - shorter,
{
    if shorter < longer {
        lemma_value_grows(text, shorter, longer - 1);
        let before = text.subrange(0, longer - 1);
        let after = text.subrange(0, longer);
        assert(after =~= before.push(text[longer - 1]));
        assert(numeric(after) =~= numeric(before).push((text[longer - 1] - DIGIT_0) as u8));
        lemma_digits_value_push(numeric(before), (text[longer - 1] - DIGIT_0) as u8);
    }
}

} // verus!
