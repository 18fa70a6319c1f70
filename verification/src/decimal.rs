//! Exact decimal numbers.
//!
//! The pool reports amounts and rates as decimal literals. A [`Decimal`]
//! keeps such a number exactly, as an integer mantissa and a power of ten,
//! so that no digit is lost between the wire and the caller.

use vstd::arithmetic::power::*;
use vstd::prelude::*;
use vstd::string::StringSliceAdditionalSpecFns;

use crate::ascii::{LOWER_E, MINUS, PLUS, POINT, UPPER_E};
use crate::magnitude::{lemma_first_difference, lemma_lower_top, lemma_padded_value, padded};
use crate::scan::{
    all_digits, digits_end, digits_value, is_digit, numeric, scan_digits, scan_number,
};

verus! {

/// Largest exponent, in absolute value, that a [`Decimal`] holds.
pub const EXPONENT_BOUND: i128 = 0x1_0000_0000_0000_0000_0000;

/// Largest number that the exponent part of a decimal literal may write.
pub const EXPONENT_LITERAL_MAX: u64 = 999_999_999_999_999_999;

/// Largest exponent, in absolute value, that [`Decimal::parse`] gives.
pub const PARSED_EXPONENT_BOUND: i128 = 0x8000_0000_0000_0000_0000;

/// The mathematical value of a [`Decimal`]: `mantissa * 10^exponent`.
pub struct DecimalValue {
    pub mantissa: int,
    pub exponent: int,
}

impl DecimalValue {
    /// The one way of writing zero, and for any other number the one way
    /// in which the mantissa does not end in a zero.
    pub open spec fn normal(self) -> bool {
        &&& self.mantissa == 0 ==> self.exponent == 0
        &&& self.mantissa != 0 ==> self.mantissa % 10 != 0
    }

    /// The number times `10^shift`, as an integer; meant for shifts large
    /// enough to clear the fraction, that is `self.exponent + shift >= 0`.
    pub open spec fn scaled(self, shift: int) -> int
        recommends
            self.exponent + shift >= 0,
    {
        self.mantissa * pow(10, (self.exponent + shift) as nat)
    }

    /// The least shift that clears the fraction of both numbers.
    pub open spec fn common_shift(self, other: DecimalValue) -> int {
        if self.exponent <= other.exponent {
            -self.exponent
        } else {
            -other.exponent
        }
    }

    /// -1, 0 or 1 as the number is below, equal to or above `other`.
    pub open spec fn compared_to(self, other: DecimalValue) -> int {
        let shift = self.common_shift(other);
        if self.scaled(shift) < other.scaled(shift) {
            -1
        } else if self.scaled(shift) > other.scaled(shift) {
            1
        } else {
            0
        }
    }

    /// The number times `10^power`, in normal form if `self` is.
    pub open spec fn times_power_of_ten(self, power: nat) -> DecimalValue {
        if self.mantissa == 0 {
            self
        } else {
            DecimalValue { mantissa: self.mantissa, exponent: self.exponent + power }
        }
    }

    /// Multiplying by a power of ten multiplies the number: with the
    /// fraction cleared by any `shift` that clears it, the product is the
    /// number times `10^power`.
    pub proof fn lemma_times_power_of_ten(self, power: nat, shift: int)
        requires
            self.exponent + shift >= 0,
            self.normal(),
        ensures
            self.times_power_of_ten(power).scaled(shift) == self.scaled(shift) * pow(10, power),
    {
        let e = (self.exponent + shift) as nat;
        if self.mantissa == 0 {
            assert(0 * pow(10, e) * pow(10, power) == 0) by (nonlinear_arith);
        } else {
            lemma_pow_adds(10, e, power);
            assert(self.mantissa * (pow(10, e) * pow(10, power)) == self.mantissa * pow(10, e)
                * pow(10, power)) by (nonlinear_arith);
        }
    }
}

/// The normal form of `mantissa * 10^exponent`.
pub open spec fn normalize(mantissa: int, exponent: int) -> DecimalValue
    decreases (if mantissa < 0 { -mantissa } else { mantissa }),
{
    if mantissa == 0 {
        DecimalValue { mantissa: 0, exponent: 0 }
    } else if mantissa % 10 == 0 {
        normalize(mantissa / 10, exponent + 1)
    } else {
        DecimalValue { mantissa, exponent }
    }
}

/// What a decimal literal writes: a sign, a coefficient and a power of
/// ten.
pub struct Literal {
    pub negative: bool,
    pub coefficient: nat,
    pub exponent: int,
}

/// `b` is `+` or `-`.
pub open spec fn is_sign(b: u8) -> bool {
    b == PLUS || b == MINUS
}

/// Where the parts of a decimal literal stand in a text.
pub struct Layout {
    /// Start of the digits before the point: 1 after a sign, else 0.
    pub int_start: int,
    /// End of the digits before the point.
    pub int_end: int,
    /// Start of the digits after the point.
    pub frac_start: int,
    /// End of the digits after the point.
    pub frac_end: int,
    /// Whether `e` or `E` follows.
    pub has_exponent: bool,
    /// Whether the exponent part has a sign.
    pub exp_signed: bool,
    /// Start of the digits of the exponent part.
    pub exp_start: int,
    /// End of the digits of the exponent part.
    pub exp_end: int,
}

/// Lays a text out as a decimal literal, from left to right: each part
/// takes as many bytes as fit it.
pub open spec fn layout(text: Seq<u8>) -> Layout {
    let int_start: int = if text.len() > 0 && is_sign(text[0]) {
        1
    } else {
        0
    };
    let int_end = digits_end(text, int_start);
    let has_point = int_end < text.len() && text[int_end] == POINT;
    let frac_start = if has_point {
        int_end + 1
    } else {
        int_end
    };
    let frac_end = digits_end(text, frac_start);
    let has_exponent = frac_end < text.len() && (text[frac_end] == LOWER_E || text[frac_end]
        == UPPER_E);
    let exp_signed = has_exponent && frac_end + 1 < text.len() && is_sign(text[frac_end + 1]);
    let exp_start = if !has_exponent {
        frac_end
    } else if exp_signed {
        frac_end + 2
    } else {
        frac_end + 1
    };
    Layout {
        int_start,
        int_end,
        frac_start,
        frac_end,
        has_exponent,
        exp_signed,
        exp_start,
        exp_end: digits_end(text, exp_start),
    }
}

/// Reads a text as a decimal literal.
///
/// A literal is an optional sign, digits with an optional point among,
/// before or after them (at least one digit in all), and an optional
/// exponent part: `e` or `E`, an optional sign, and one or more digits
/// that write a number no larger than [`EXPONENT_LITERAL_MAX`]. Nothing
/// may stand before or after it.
pub open spec fn literal(text: Seq<u8>) -> Option<Literal> {
    let at = layout(text);
    let written = digits_value(numeric(text.subrange(at.exp_start, at.exp_end)));
    if (at.int_end - at.int_start) + (at.frac_end - at.frac_start) == 0 {
        None
    } else if at.exp_end != text.len() {
        None
    } else if at.has_exponent && at.exp_end == at.exp_start {
        None
    } else if written > EXPONENT_LITERAL_MAX {
        None
    } else {
        Some(
            Literal {
                negative: at.int_start == 1 && text[0] == MINUS,
                coefficient: digits_value(
                    numeric(
                        text.subrange(at.int_start, at.int_end) + text.subrange(
                            at.frac_start,
                            at.frac_end,
                        ),
                    ),
                ),
                exponent: (if at.exp_signed && text[at.exp_start - 1] == MINUS {
                    -(written as int)
                } else {
                    written as int
                }) - (at.frac_end - at.frac_start),
            },
        )
    }
}

/// The number that a text writes as a decimal literal, in normal form.
pub open spec fn decimal_of(text: Seq<u8>) -> Option<DecimalValue> {
    match literal(text) {
        Some(l) => Some(
            normalize(
                if l.negative {
                    -(l.coefficient as int)
                } else {
                    l.coefficient as int
                },
                l.exponent,
            ),
        ),
        None => None,
    }
}

/// A number has one normal form: two decimals in normal form that are
/// the same number have the same mantissa and the same exponent.
pub proof fn lemma_normal_unique(a: DecimalValue, b: DecimalValue)
    requires
        a.normal(),
        b.normal(),
        a.compared_to(b) == 0,
    ensures
        a == b,
{
    let shift = a.common_shift(b);
    let up_a = (a.exponent + shift) as nat;
    let up_b = (b.exponent + shift) as nat;
    lemma_pow_positive(10, up_a);
    lemma_pow_positive(10, up_b);
    lemma_sign_of_product(a.mantissa, pow(10, up_a));
    lemma_sign_of_product(b.mantissa, pow(10, up_b));
    reveal(pow);
    if a.mantissa != 0 {
        if a.exponent < b.exponent {
            let rest = pow(10, (up_b - 1) as nat);
            assert(a.mantissa * 1 == (b.mantissa * rest) * 10) by (nonlinear_arith)
                requires
                    a.mantissa * 1 == b.mantissa * (10 * rest),
            ;
        } else if b.exponent < a.exponent {
            let rest = pow(10, (up_a - 1) as nat);
            assert(b.mantissa * 1 == (a.mantissa * rest) * 10) by (nonlinear_arith)
                requires
                    b.mantissa * 1 == a.mantissa * (10 * rest),
            ;
        }
    }
}

/// A text that starts with anything but a sign, a digit or a point is no
/// decimal literal.
pub proof fn lemma_literal_starts(text: Seq<u8>)
    requires
        text.len() > 0,
        !is_sign(text[0]),
        !is_digit(text[0]),
        text[0] != POINT,
    ensures
        decimal_of(text) is None,
{
}

/// The empty text is no decimal literal.
pub proof fn lemma_literal_not_empty(text: Seq<u8>)
    requires
        text.len() == 0,
    ensures
        decimal_of(text) is None,
{
}

/// A product with a positive number has the sign of the other factor.
proof fn lemma_sign_of_product(x: int, positive: int)
    by (nonlinear_arith)
    requires
        positive > 0,
    ensures
        x < 0 ==> x * positive < 0,
        x == 0 ==> x * positive == 0,
        x > 0 ==> x * positive > 0,
{
}

proof fn lemma_digits_value_leading_zero(digits: Seq<u8>)
    requires
        digits.len() > 0,
        digits[0] == 0,
    ensures
        digits_value(digits) == digits_value(digits.drop_first()),
    decreases digits.len(),
{
    if digits.len() == 1 {
        assert(digits.drop_last() =~= Seq::<u8>::empty());
        assert(digits.drop_first() =~= Seq::<u8>::empty());
    } else {
        lemma_digits_value_leading_zero(digits.drop_last());
        assert(digits.drop_last().drop_first() =~= digits.drop_first().drop_last());
    }
}

proof fn lemma_digits_value_positive(digits: Seq<u8>)
    requires
        digits.len() > 0,
        digits[0] != 0,
    ensures
        digits_value(digits) > 0,
    decreases digits.len(),
{
    if digits.len() > 1 {
        lemma_digits_value_positive(digits.drop_last());
    } else {
        assert(digits.drop_last() =~= Seq::<u8>::empty());
    }
}

proof fn lemma_normalize_strip(mantissa: int, zeros: nat, exponent: int)
    requires
        mantissa % 10 != 0,
    ensures
        normalize(mantissa * pow(10, zeros), exponent) == (DecimalValue {
            mantissa,
            exponent: exponent + zeros,
        }),
    decreases zeros,
{
    reveal(pow);
    if zeros > 0 {
        let p = pow(10, (zeros - 1) as nat);
        lemma_pow_positive(10, (zeros - 1) as nat);
        assert(mantissa * pow(10, zeros) == (mantissa * p) * 10) by (nonlinear_arith)
            requires
                pow(10, zeros) == 10 * p,
        ;
        assert(mantissa * p != 0) by (nonlinear_arith)
            requires
                mantissa != 0,
                p > 0,
        ;
        lemma_normalize_strip(mantissa, (zeros - 1) as nat, exponent + 1);
    } else {
        assert(mantissa * pow(10, 0) == mantissa);
    }
}

/// Reads a decimal literal into its sign, the digits of its coefficient
/// and its exponent.
fn read_literal(bytes: &[u8]) -> (r: Option<(bool, Vec<u8>, i128)>)
    ensures
        match r {
            Some((negative, digits, exponent)) => {
                &&& literal(bytes@) == Some(
                    Literal {
                        negative,
                        coefficient: digits_value(digits@),
                        exponent: exponent as int,
                    },
                )
                &&& all_digits(digits@)
                &&& -PARSED_EXPONENT_BOUND <= exponent
                &&& exponent + digits@.len() <= PARSED_EXPONENT_BOUND
            },
            None => literal(bytes@) is None,
        },
{
    let n = bytes.len();
    let ghost s = bytes@;
    let ghost at = layout(s);
    let mut negative = false;
    let mut int_start: usize = 0;
    if n > 0 && (bytes[0] == PLUS || bytes[0] == MINUS) {
        negative = bytes[0] == MINUS;
        int_start = 1;
    }
    assert(int_start == at.int_start);
    let mut digits: Vec<u8> = Vec::new();
    let int_end = scan_digits(bytes, int_start, &mut digits);
    assert(int_end == at.int_end);
    let ghost int_digits = digits@;
    let mut frac_start = int_end;
    if int_end < n && bytes[int_end] == POINT {
        frac_start = int_end + 1;
    }
    assert(frac_start == at.frac_start);
    let frac_end = scan_digits(bytes, frac_start, &mut digits);
    assert(frac_end == at.frac_end);
    proof {
        let a = s.subrange(int_start as int, int_end as int);
        let b = s.subrange(frac_start as int, frac_end as int);
        assert(int_digits =~= numeric(a));
        assert(numeric(a) + numeric(b) =~= numeric(a + b));
        assert(digits@ == numeric(a + b));
        assert(digits@.len() == (int_end - int_start) + (frac_end - frac_start));
    }
    if digits.len() == 0 {
        return None;
    }
    let mut exp_start = frac_end;
    let mut exp_negative = false;
    let has_exponent = frac_end < n && (bytes[frac_end] == LOWER_E || bytes[frac_end] == UPPER_E);
    if has_exponent {
        exp_start = frac_end + 1;
        if exp_start < n && (bytes[exp_start] == PLUS || bytes[exp_start] == MINUS) {
            exp_negative = bytes[exp_start] == MINUS;
            exp_start = exp_start + 1;
        }
    }
    assert(has_exponent == at.has_exponent);
    assert(exp_start == at.exp_start);
    assert(exp_negative == (at.exp_signed && s[at.exp_start - 1] == MINUS));
    let (exp_end, written) = scan_number(bytes, exp_start, EXPONENT_LITERAL_MAX);
    assert(exp_end == at.exp_end);
    if exp_end != n || (has_exponent && exp_end == exp_start) {
        return None;
    }
    match written {
        None => None,
        Some(w) => {
            let frac_len: i128 = (frac_end - frac_start) as i128;
            let exponent: i128 = if exp_negative {
                -(w as i128) - frac_len
            } else {
                w as i128 - frac_len
            };
            Some((negative, digits, exponent))
        },
    }
}

/// A decimal number `mantissa * 10^exponent`, held exactly and in normal
/// form: the mantissa of a number other than zero does not end in a zero,
/// and zero has the exponent zero and no sign.
///
/// Two decimals are the same number exactly when they have the same sign,
/// digits and exponent, which is what `==` compares; [`Decimal::compare`]
/// orders them as numbers.
#[derive(Debug, PartialEq, Eq)]
pub struct Decimal {
    negative: bool,
    digits: Vec<u8>,
    exponent: i128,
}

impl View for Decimal {
    type V = DecimalValue;

    closed spec fn view(&self) -> DecimalValue {
        DecimalValue {
            mantissa: if self.negative {
                -(digits_value(self.digits@) as int)
            } else {
                digits_value(self.digits@) as int
            },
            exponent: self.exponent as int,
        }
    }
}

impl Clone for Decimal {
    fn clone(&self) -> (r: Self)
        ensures
            r@ == self@,
    {
        proof {
            use_type_invariant(self);
        }
        let digits = self.digits.clone();
        assert(digits@ =~= self.digits@);
        Decimal { negative: self.negative, digits, exponent: self.exponent }
    }
}

impl Decimal {
    /// What holds of every decimal: its digits are decimal digits with no
    /// zero at either end, zero has no sign and the exponent zero, and the
    /// exponent is within [`EXPONENT_BOUND`].
    #[verifier::type_invariant]
    spec fn well_formed(self) -> bool {
        &&& all_digits(self.digits@)
        &&& self.digits@.len() > 0 ==> self.digits@[0] != 0 && self.digits@.last() != 0
        &&& self.digits@.len() == 0 ==> !self.negative && self.exponent == 0
        &&& -EXPONENT_BOUND <= self.exponent <= EXPONENT_BOUND
    }

    /// The digits of the mantissa's absolute value, most significant first;
    /// none for zero.
    pub closed spec fn spec_digits(self) -> Seq<u8> {
        self.digits@
    }

    /// Whether the number is below zero.
    pub fn is_negative(&self) -> (r: bool)
        ensures
            r == (self@.mantissa < 0),
    {
        proof {
            use_type_invariant(self);
            if self.digits@.len() > 0 {
                lemma_digits_value_positive(self.digits@);
            }
        }
        self.negative
    }

    /// The digits of the mantissa's absolute value, most significant first.
    /// Zero has no digits.
    pub fn digits(&self) -> (r: &[u8])
        ensures
            r@ == self.spec_digits(),
            all_digits(r@),
            digits_value(r@) == (if self@.mantissa < 0 {
                -self@.mantissa
            } else {
                self@.mantissa
            }),
    {
        proof {
            use_type_invariant(self);
        }
        self.digits.as_slice()
    }

    /// The power of ten by which the mantissa is scaled.
    pub fn exponent(&self) -> (r: i128)
        ensures
            r == self@.exponent,
            -EXPONENT_BOUND <= r <= EXPONENT_BOUND,
            self@.normal(),
    {
        proof {
            use_type_invariant(self);
            self.lemma_normal();
        }
        self.exponent
    }

    /// The value of every decimal is in normal form.
    proof fn lemma_normal(self)
        requires
            self.well_formed(),
        ensures
            self@.normal(),
    {
        if self.digits@.len() > 0 {
            lemma_digits_value_positive(self.digits@);
        }
    }

    /// The number times `10^power`.
    pub(crate) fn times_power_of_ten(&self, power: u8) -> (r: Decimal)
        requires
            self@.exponent + power <= EXPONENT_BOUND,
        ensures
            r@ == self@.times_power_of_ten(power as nat),
            self@.normal(),
            r@.normal(),
    {
        proof {
            use_type_invariant(self);
            self.lemma_normal();
        }
        let digits = self.digits.clone();
        assert(digits@ =~= self.digits@);
        if digits.len() == 0 {
            Decimal { negative: false, digits, exponent: 0 }
        } else {
            proof {
                lemma_digits_value_positive(self.digits@);
            }
            let r = Decimal {
                negative: self.negative,
                digits,
                exponent: self.exponent + power as i128,
            };
            proof {
                r.lemma_normal();
            }
            r
        }
    }

    /// -1, 0 or 1 as the number is below, equal to or above zero.
    fn signum(&self) -> (r: i8)
        ensures
            r == -1 <==> self@.mantissa < 0,
            r == 0 <==> self@.mantissa == 0,
            r == 1 <==> self@.mantissa > 0,
            r == 0 ==> self@.exponent == 0,
    {
        proof {
            use_type_invariant(self);
            if self.digits@.len() > 0 {
                lemma_digits_value_positive(self.digits@);
            }
        }
        if self.digits.len() == 0 {
            0
        } else if self.negative {
            -1
        } else {
            1
        }
    }

    /// The digit at a place, where the digits are followed by zeros.
    fn digit_or_zero(&self, at: usize) -> (r: u8)
        ensures
            r == (if at < self.digits@.len() {
                self.digits@[at as int]
            } else {
                0u8
            }),
            r <= 9,
    {
        proof {
            use_type_invariant(self);
        }
        if at < self.digits.len() {
            self.digits[at]
        } else {
            0
        }
    }

    /// -1, 0 or 1 as of two numbers other than zero the first is nearer
    /// to zero than the second, as far from it, or farther.
    fn magnitude_compared_to(&self, other: &Decimal) -> (r: i8)
        requires
            self.digits@.len() > 0,
            other.digits@.len() > 0,
        ensures
            ({
                let shift = self@.common_shift(other@);
                let x = digits_value(self.digits@) * pow(10, (self.exponent + shift) as nat);
                let y = digits_value(other.digits@) * pow(10, (other.exponent + shift) as nat);
                ||| r == -1 && x < y
                ||| r == 1 && x > y
                ||| r == 0 && x == y && self.digits@ == other.digits@ && self.exponent
                    == other.exponent
            }),
    {
        proof {
            use_type_invariant(self);
            use_type_invariant(other);
        }
        let ghost shift = self@.common_shift(other@);
        let ghost up_a = (self.exponent + shift) as nat;
        let ghost up_b = (other.exponent + shift) as nat;
        let la = self.digits.len();
        let lb = other.digits.len();
        let top_a: i128 = self.exponent + la as i128;
        let top_b: i128 = other.exponent + lb as i128;
        if top_a < top_b {
            proof {
                lemma_lower_top(self.digits@, up_a, other.digits@, up_b);
            }
            return -1;
        }
        if top_a > top_b {
            proof {
                lemma_lower_top(other.digits@, up_b, self.digits@, up_a);
            }
            return 1;
        }
        let len = if la < lb {
            lb
        } else {
            la
        };
        let ghost pa = padded(self.digits@, len as nat);
        let ghost pb = padded(other.digits@, len as nat);
        proof {
            lemma_padded_value(self.digits@, len as nat);
            lemma_padded_value(other.digits@, len as nat);
            assert(up_a == len - la);
            assert(up_b == len - lb);
            assert(all_digits(pa)) by {
                assert forall|k: int| 0 <= k < pa.len() implies #[trigger] pa[k] <= 9 by {
                    if k < la {
                        assert(self.digits@[k] <= 9);
                    }
                }
            }
            assert(all_digits(pb)) by {
                assert forall|k: int| 0 <= k < pb.len() implies #[trigger] pb[k] <= 9 by {
                    if k < lb {
                        assert(other.digits@[k] <= 9);
                    }
                }
            }
        }
        let mut i: usize = 0;
        while i < len
            invariant
                i <= len,
                pa == padded(self.digits@, len as nat),
                pb == padded(other.digits@, len as nat),
                all_digits(pa),
                all_digits(pb),
                shift == self@.common_shift(other@),
                up_a == (self.exponent + shift) as nat,
                up_b == (other.exponent + shift) as nat,
                digits_value(pa) == digits_value(self.digits@) * pow(10, up_a),
                digits_value(pb) == digits_value(other.digits@) * pow(10, up_b),
                forall|k: int| 0 <= k < i ==> pa[k] == pb[k],
            decreases len - i,
        {
            let x = self.digit_or_zero(i);
            let y = other.digit_or_zero(i);
            if x < y {
                proof {
                    lemma_first_difference(pa, pb, i as int);
                }
                return -1;
            }
            if x > y {
                proof {
                    lemma_first_difference(pb, pa, i as int);
                }
                return 1;
            }
            i = i + 1;
        }
        proof {
            assert(pa =~= pb);
            if la < lb {
                assert(pb[lb - 1] == other.digits@[lb - 1]);
                assert(pa[lb - 1] == 0);
            }
            if lb < la {
                assert(pa[la - 1] == self.digits@[la - 1]);
                assert(pb[la - 1] == 0);
            }
            assert(self.digits@ =~= pa);
            assert(other.digits@ =~= pb);
        }
        0
    }

    /// Compares two numbers by their values: -1, 0 or 1 as the number is
    /// below, equal to or above `other`.
    pub fn compared_to(&self, other: &Decimal) -> (r: i8)
        ensures
            r == self@.compared_to(other@),
            r == 0 <==> self@ == other@,
    {
        let sa = self.signum();
        let sb = other.signum();
        let ghost shift = self@.common_shift(other@);
        let ghost up_a = (self@.exponent + shift) as nat;
        let ghost up_b = (other@.exponent + shift) as nat;
        proof {
            lemma_pow_positive(10, up_a);
            lemma_pow_positive(10, up_b);
            lemma_sign_of_product(self@.mantissa, pow(10, up_a));
            lemma_sign_of_product(other@.mantissa, pow(10, up_b));
        }
        if sa != sb || sa == 0 {
            if sa < sb {
                -1
            } else if sa > sb {
                1
            } else {
                0
            }
        } else {
            let m = self.magnitude_compared_to(other);
            proof {
                let x = digits_value(self.digits@) * pow(10, up_a);
                let y = digits_value(other.digits@) * pow(10, up_b);
                if sa == -1 {
                    assert(self@.scaled(shift) == -x) by (nonlinear_arith)
                        requires
                            self@.scaled(shift) == (-(digits_value(self.digits@) as int)) * pow(
                                10,
                                up_a,
                            ),
                            x == digits_value(self.digits@) * pow(10, up_a),
                    ;
                    assert(other@.scaled(shift) == -y) by (nonlinear_arith)
                        requires
                            other@.scaled(shift) == (-(digits_value(other.digits@) as int)) * pow(
                                10,
                                up_b,
                            ),
                            y == digits_value(other.digits@) * pow(10, up_b),
                    ;
                }
            }
            if sa == -1 {
                -m
            } else {
                m
            }
        }
    }

    /// Reads a decimal literal.
    ///
    /// `Some` exactly for the texts that [`literal`] takes, with the number
    /// that the literal writes.
    pub fn parse(text: &str) -> (r: Option<Decimal>)
        ensures
            match r {
                Some(d) => decimal_of(text.spec_bytes()) == Some(d@),
                None => decimal_of(text.spec_bytes()) is None,
            },
            r matches Some(d) ==> d@.normal() && -PARSED_EXPONENT_BOUND <= d@.exponent
                <= PARSED_EXPONENT_BOUND,
    {
        match read_literal(text.as_bytes()) {
            Some((negative, digits, exponent)) => Some(
                Decimal::from_parts(negative, &digits, exponent),
            ),
            None => None,
        }
    }

    /// Builds the decimal `±digits * 10^exponent`, in normal form.
    pub(crate) fn from_parts(negative: bool, digits: &Vec<u8>, exponent: i128) -> (r: Decimal)
        requires
            all_digits(digits@),
            -PARSED_EXPONENT_BOUND <= exponent,
            exponent + digits@.len() <= PARSED_EXPONENT_BOUND,
        ensures
            r@ == normalize(
                if negative {
                    -(digits_value(digits@) as int)
                } else {
                    digits_value(digits@) as int
                },
                exponent as int,
            ),
            -PARSED_EXPONENT_BOUND <= r@.exponent <= PARSED_EXPONENT_BOUND,
            r@.normal(),
    {
        let n = digits.len();
        // Trailing zeros go into the exponent.
        let mut end: usize = n;
        proof {
            assert(digits@.take(n as int) =~= digits@);
            reveal(pow);
        }
        while end > 0 && digits[end - 1] == 0
            invariant
                end <= n,
                n == digits@.len(),
                digits_value(digits@) == digits_value(digits@.take(end as int)) * pow(
                    10,
                    (n - end) as nat,
                ),
            decreases end,
        {
            proof {
                let t = digits@.take(end as int);
                assert(t.drop_last() =~= digits@.take(end - 1));
                assert(digits_value(t) == digits_value(digits@.take(end - 1)) * 10);
                reveal(pow);
                assert(pow(10, (n - (end - 1)) as nat) == 10 * pow(10, (n - end) as nat));
                assert(digits_value(digits@.take(end - 1)) * 10 * pow(10, (n - end) as nat)
                    == digits_value(digits@.take(end - 1)) * (10 * pow(10, (n - end) as nat)))
                    by (nonlinear_arith);
            }
            end = end - 1;
        }
        // Leading zeros carry no value.
        let mut start: usize = 0;
        while start < end && digits[start] == 0
            invariant
                start <= end <= n,
                n == digits@.len(),
                digits_value(digits@.take(end as int)) == digits_value(
                    digits@.subrange(start as int, end as int),
                ),
            decreases end - start,
        {
            proof {
                let s = digits@.subrange(start as int, end as int);
                lemma_digits_value_leading_zero(s);
                assert(s.drop_first() =~= digits@.subrange(start + 1, end as int));
            }
            start = start + 1;
        }
        let ghost core = digits@.subrange(start as int, end as int);
        let ghost zeros = (n - end) as nat;
        let ghost signed: int = if negative {
            -(digits_value(digits@) as int)
        } else {
            digits_value(digits@) as int
        };
        if start == end {
            proof {
                assert(core =~= Seq::<u8>::empty());
                assert(digits_value(digits@) == 0) by (nonlinear_arith)
                    requires
                        digits_value(digits@) == 0 * pow(10, zeros),
                ;
            }
            let zero = Decimal { negative: false, digits: Vec::new(), exponent: 0 };
            assert(zero@.mantissa == 0);
            return zero;
        }
        let mut kept: Vec<u8> = Vec::new();
        let mut i: usize = start;
        while i < end
            invariant
                start <= i <= end <= n,
                n == digits@.len(),
                kept@ == digits@.subrange(start as int, i as int),
            decreases end - i,
        {
            kept.push(digits[i]);
            proof {
                assert(digits@.subrange(start as int, i + 1) =~= digits@.subrange(
                    start as int,
                    i as int,
                ).push(digits@[i as int]));
            }
            i = i + 1;
        }
        proof {
            assert(kept@ == core);
            assert(core[0] == digits@[start as int]);
            assert(core.last() == digits@[end - 1]);
            lemma_digits_value_positive(core);
            let c = digits_value(core) as int;
            assert(core.drop_last().len() == core.len() - 1);
            assert(c % 10 == core.last() as int);
            let m: int = if negative { -c } else { c };
            assert(m % 10 != 0);
            assert(signed == m * pow(10, zeros)) by (nonlinear_arith)
                requires
                    digits_value(digits@) == c * pow(10, zeros),
                    signed == (if negative {
                        -(digits_value(digits@) as int)
                    } else {
                        digits_value(digits@) as int
                    }),
                    m == (if negative { -c } else { c }),
            ;
            lemma_normalize_strip(m, zeros, exponent as int);
        }
        let d = Decimal { negative, digits: kept, exponent: exponent + (n - end) as i128 };
        proof {
            d.lemma_normal();
        }
        d
    }
}

} // verus!
