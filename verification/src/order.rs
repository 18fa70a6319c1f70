//! Ordering of decimals and of hash rates.
//!
//! Decimals are ordered as numbers. Hash rates are ordered as pairs: by
//! unit first, from `H` up to `YH`, and within one unit by the number.
//! This is not the order of the hashes per second: compare what
//! [`HashRate::to_hashes`] gives for that.

use core::cmp::Ordering;
use vstd::prelude::*;

use crate::decimal::{Decimal, DecimalValue};
use crate::hashrate::{HashRate, HashRateValue};

verus! {

/// The order that a sign stands for: below zero is less, above is
/// greater.
pub open spec fn order_of_sign(sign: int) -> Ordering {
    if sign < 0 {
        Ordering::Less
    } else if sign > 0 {
        Ordering::Greater
    } else {
        Ordering::Equal
    }
}

/// How two numbers stand to each other.
pub open spec fn decimal_order(a: DecimalValue, b: DecimalValue) -> Ordering {
    order_of_sign(a.compared_to(b))
}

/// How two hash rates stand to each other, as pairs of unit and number.
pub open spec fn rate_order(a: HashRateValue, b: HashRateValue) -> Ordering {
    if a.unit.spec_exponent() < b.unit.spec_exponent() {
        Ordering::Less
    } else if a.unit.spec_exponent() > b.unit.spec_exponent() {
        Ordering::Greater
    } else {
        decimal_order(a.value, b.value)
    }
}

impl Decimal {
    /// Compares two numbers.
    pub fn compare(&self, other: &Decimal) -> (r: Ordering)
        ensures
            r == decimal_order(self@, other@),
            r == Ordering::Equal <==> self@ == other@,
    {
        let sign = self.compared_to(other);
        if sign < 0 {
            Ordering::Less
        } else if sign > 0 {
            Ordering::Greater
        } else {
            Ordering::Equal
        }
    }
}

impl HashRate {
    /// Compares two hash rates as pairs of unit and number.
    pub fn compare(&self, other: &HashRate) -> (r: Ordering)
        ensures
            r == rate_order(self@, other@),
            r == Ordering::Equal <==> self@ == other@,
    {
        let a = self.unit().exponent();
        let b = other.unit().exponent();
        if a < b {
            Ordering::Less
        } else if a > b {
            Ordering::Greater
        } else {
            self.value().compare(other.value())
        }
    }
}

} // verus!
