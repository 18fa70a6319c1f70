//! Hash rate: a number together with its unit.

use vstd::arithmetic::power::pow;
use vstd::prelude::*;

use crate::decimal::{Decimal, DecimalValue, PARSED_EXPONENT_BOUND};
use crate::unit::HashRateUnit;

verus! {

/// What a [`HashRate`] stands for.
pub struct HashRateValue {
    pub unit: HashRateUnit,
    pub value: DecimalValue,
}

/// Hashrate
///
/// Two hash rates are equal when they have the same unit and the same
/// number in that unit, and [`HashRate::compare`] orders them by unit
/// first. Rates in different units are never equal, even where they come
/// to the same number of hashes per second: compare what
/// [`HashRate::to_hashes`] gives to compare across units.
#[derive(Debug, PartialEq, Eq)]
pub struct HashRate {
    unit: HashRateUnit,
    value: Decimal,
}

impl View for HashRate {
    type V = HashRateValue;

    closed spec fn view(&self) -> HashRateValue {
        HashRateValue { unit: self.unit, value: self.value@ }
    }
}

impl Clone for HashRate {
    fn clone(&self) -> (r: Self)
        ensures
            r@ == self@,
    {
        proof {
            use_type_invariant(self);
        }
        HashRate { unit: self.unit, value: self.value.clone() }
    }
}

impl HashRate {
    #[verifier::type_invariant]
    spec fn well_formed(self) -> bool {
        self.value@.exponent <= PARSED_EXPONENT_BOUND
    }

    /// A rate of `value` in `unit`.
    pub(crate) fn new(unit: HashRateUnit, value: Decimal) -> (r: HashRate)
        requires
            value@.exponent <= PARSED_EXPONENT_BOUND,
        ensures
            r@ == (HashRateValue { unit, value: value@ }),
    {
        HashRate { unit, value }
    }

    /// Get the hashrate unit.
    pub fn unit(&self) -> (r: HashRateUnit)
        ensures
            r == self@.unit,
    {
        self.unit
    }

    /// Get the hashrate value in [`HashRateUnit`].
    pub fn value(&self) -> (r: &Decimal)
        ensures
            r@ == self@.value,
    {
        &self.value
    }

    /// Get hashrate as **hashes/sec**: the value times ten to the power
    /// of the unit's exponent, exactly.
    pub fn to_hashes(&self) -> (r: Decimal)
        ensures
            r@ == self@.value.times_power_of_ten(self@.unit.spec_exponent() as nat),
            forall|shift: int|
                self@.value.exponent + shift >= 0 ==> #[trigger] r@.scaled(shift)
                    == self@.value.scaled(shift) * pow(10, self@.unit.spec_exponent() as nat),
    {
        proof {
            use_type_invariant(self);
        }
        let power = self.unit.exponent();
        let r = self.value.times_power_of_ten(power as u8);
        proof {
            assert forall|shift: int|
                self@.value.exponent + shift >= 0 implies #[trigger] r@.scaled(shift)
                == self@.value.scaled(shift) * pow(10, self@.unit.spec_exponent() as nat) by {
                self@.value.lemma_times_power_of_ten(power as nat, shift);
            }
        }
        r
    }
}

} // verus!
