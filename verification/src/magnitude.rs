//! How the digits of two numbers decide which is the larger.

use vstd::arithmetic::power::{lemma_pow_adds, lemma_pow_increases, lemma_pow_positive, pow};
use vstd::prelude::*;

use crate::scan::{all_digits, digits_value, lemma_digits_value_push};

verus! {

/// The digits followed by zeros, up to a length of `len`.
pub open spec fn padded(digits: Seq<u8>, len: nat) -> Seq<u8> {
    Seq::new(
        len,
        |i: int|
            if i < digits.len() {
                digits[i]
            } else {
                0u8
            },
    )
}

/// A number of `n` digits is below `10^n`, and not below `10^(n-1)` where
/// its first digit is no zero.
pub proof fn lemma_digits_value_bounds(digits: Seq<u8>)
    requires
        all_digits(digits),
        digits.len() > 0,
    ensures
        digits_value(digits) < pow(10, digits.len()),
        digits[0] != 0 ==> pow(10, (digits.len() - 1) as nat) <= digits_value(digits),
    decreases digits.len(),
{
    reveal(pow);
    let front = digits.drop_last();
    if digits.len() == 1 {
        assert(front =~= Seq::<u8>::empty());
        assert(digits_value(digits) == digits[0]);
        assert(pow(10, 1) == 10 * pow(10, 0));
        assert(pow(10, 0) == 1);
    } else {
        assert(all_digits(front)) by {
            assert forall|i: int| 0 <= i < front.len() implies #[trigger] front[i] <= 9 by {
                assert(digits[i] <= 9);
            }
        }
        assert(front[0] == digits[0]);
        lemma_digits_value_bounds(front);
        assert(digits.last() <= 9);
        assert(pow(10, digits.len()) == 10 * pow(10, front.len()));
        assert(pow(10, front.len()) == 10 * pow(10, (front.len() - 1) as nat));
    }
}

/// Zeros after the digits multiply the number by a power of ten.
pub proof fn lemma_padded_value(digits: Seq<u8>, len: nat)
    requires
        digits.len() <= len,
    ensures
        digits_value(padded(digits, len)) == digits_value(digits) * pow(
            10,
            (len - digits.len()) as nat,
        ),
    decreases len - digits.len(),
{
    reveal(pow);
    if len == digits.len() {
        assert(padded(digits, len) =~= digits);
    } else {
        let shorter = (len - 1) as nat;
        lemma_padded_value(digits, shorter);
        assert(padded(digits, len) =~= padded(digits, shorter).push(0u8));
        lemma_digits_value_push(padded(digits, shorter), 0u8);
        let p = pow(10, (shorter - digits.len()) as nat);
        assert(pow(10, (len - digits.len()) as nat) == 10 * p);
        assert(digits_value(digits) * p * 10 == digits_value(digits) * (10 * p))
            by (nonlinear_arith);
    }
}

/// Of two numbers with equally many digits, the one with the smaller
/// digit at the first place where they differ is the smaller.
pub proof fn lemma_first_difference(a: Seq<u8>, b: Seq<u8>, at: int)
    requires
        all_digits(a),
        all_digits(b),
        a.len() == b.len(),
        0 <= at < a.len(),
        forall|i: int| 0 <= i < at ==> a[i] == b[i],
        a[at] < b[at],
    ensures
        digits_value(a) < digits_value(b),
    decreases a.len(),
{
    let fa = a.drop_last();
    let fb = b.drop_last();
    if at == a.len() - 1 {
        assert(fa =~= fb);
    } else {
        assert(all_digits(fa)) by {
            assert forall|i: int| 0 <= i < fa.len() implies #[trigger] fa[i] <= 9 by {
                assert(a[i] <= 9);
            }
        }
        assert(all_digits(fb)) by {
            assert forall|i: int| 0 <= i < fb.len() implies #[trigger] fb[i] <= 9 by {
                assert(b[i] <= 9);
            }
        }
        assert forall|i: int| 0 <= i < at implies fa[i] == fb[i] by {
            assert(a[i] == b[i]);
        }
        assert(fa[at] == a[at] && fb[at] == b[at]);
        lemma_first_difference(fa, fb, at);
        assert(a.last() <= 9);
    }
}

/// A number whose digits reach less far up is the smaller: with `m` and
/// `n` digits and exponents `d` and `e`, where `m + d < n + e`.
pub proof fn lemma_lower_top(a: Seq<u8>, d: nat, b: Seq<u8>, e: nat)
    requires
        all_digits(a),
        all_digits(b),
        a.len() > 0,
        b.len() > 0,
        b[0] != 0,
        a.len() + d < b.len() + e,
    ensures
        digits_value(a) * pow(10, d) < digits_value(b) * pow(10, e),
{
    lemma_digits_value_bounds(a);
    lemma_digits_value_bounds(b);
    let va = digits_value(a) as int;
    let vb = digits_value(b) as int;
    let pd = pow(10, d);
    let pe = pow(10, e);
    let upper = pow(10, a.len());
    let lower = pow(10, (b.len() - 1) as nat);
    lemma_pow_positive(10, d);
    lemma_pow_positive(10, e);
    lemma_pow_adds(10, a.len(), d);
    lemma_pow_adds(10, (b.len() - 1) as nat, e);
    lemma_pow_increases(10, a.len() + d, (b.len() - 1 + e) as nat);
    assert(va * pd < upper * pd) by (nonlinear_arith)
        requires
            va < upper,
            pd > 0,
    ;
    assert(lower * pe <= vb * pe) by (nonlinear_arith)
        requires
            lower <= vb,
            pe > 0,
    ;
}

} // verus!
