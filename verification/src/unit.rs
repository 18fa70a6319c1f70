//! Hash-rate unit scale.

use vstd::prelude::*;
use vstd::string::StringSliceAdditionalSpecFns;

use crate::ascii::{
    CASE_OFFSET, LOWER_E, LOWER_G, LOWER_H, LOWER_K, LOWER_M, LOWER_P, LOWER_S, LOWER_T, LOWER_Y,
    LOWER_Z, SLASH, UPPER_A, UPPER_Z,
};

verus! {

/// Hash rate unit
#[derive(Debug, Clone, Copy, PartialEq, Eq, Structural, PartialOrd, Ord, Hash)]
pub enum HashRateUnit {
    /// Hash per second
    H,
    /// Kilohash per second
    KH,
    /// Megahash per second
    MH,
    /// Gigahash per second
    GH,
    /// Terahash per second
    TH,
    /// Petahash per second
    PH,
    /// Exahash per second
    EH,
    /// Zettahash per second
    ZH,
    /// Yottahash per second
    YH,
}

/// An ASCII letter in lower case; any other byte unchanged.
pub open spec fn lower(b: u8) -> u8 {
    if UPPER_A <= b <= UPPER_Z {
        (b + CASE_OFFSET) as u8
    } else {
        b
    }
}

/// A text with its ASCII letters in lower case.
pub open spec fn lowered(text: Seq<u8>) -> Seq<u8> {
    Seq::new(text.len(), |i: int| lower(text[i]))
}

/// The name of the unit with the given prefix, in lower case.
pub open spec fn name_with(prefix: u8) -> Seq<u8> {
    seq![prefix, LOWER_H, SLASH, LOWER_S]
}

/// The unit that a name stands for.
///
/// The names are `H/s`, `Kh/s`, `Mh/s`, `Gh/s`, `Th/s`, `Ph/s`, `Eh/s`,
/// `Zh/s` and `Yh/s`, each letter in either case.
pub open spec fn unit_named(name: Seq<u8>) -> Option<HashRateUnit> {
    let name = lowered(name);
    if name =~= seq![LOWER_H, SLASH, LOWER_S] {
        Some(HashRateUnit::H)
    } else if name =~= name_with(LOWER_K) {
        Some(HashRateUnit::KH)
    } else if name =~= name_with(LOWER_M) {
        Some(HashRateUnit::MH)
    } else if name =~= name_with(LOWER_G) {
        Some(HashRateUnit::GH)
    } else if name =~= name_with(LOWER_T) {
        Some(HashRateUnit::TH)
    } else if name =~= name_with(LOWER_P) {
        Some(HashRateUnit::PH)
    } else if name =~= name_with(LOWER_E) {
        Some(HashRateUnit::EH)
    } else if name =~= name_with(LOWER_Z) {
        Some(HashRateUnit::ZH)
    } else if name =~= name_with(LOWER_Y) {
        Some(HashRateUnit::YH)
    } else {
        None
    }
}

/// An ASCII letter in lower case; any other byte unchanged.
fn to_lower(b: u8) -> (r: u8)
    ensures
        r == lower(b),
{
    if UPPER_A <= b && b <= UPPER_Z {
        b + CASE_OFFSET
    } else {
        b
    }
}

impl HashRateUnit {
    /// Reads the name of a unit, as the pool writes it.
    pub fn from_name(name: &str) -> (r: Option<HashRateUnit>)
        ensures
            r == unit_named(name.spec_bytes()),
    {
        let b = name.as_bytes();
        if b.len() == 3 {
            if to_lower(b[0]) == LOWER_H && b[1] == SLASH && to_lower(b[2]) == LOWER_S {
                Some(HashRateUnit::H)
            } else {
                None
            }
        } else if b.len() == 4 {
            if to_lower(b[1]) == LOWER_H && b[2] == SLASH && to_lower(b[3]) == LOWER_S {
                let prefix = to_lower(b[0]);
                if prefix == LOWER_K {
                    Some(HashRateUnit::KH)
                } else if prefix == LOWER_M {
                    Some(HashRateUnit::MH)
                } else if prefix == LOWER_G {
                    Some(HashRateUnit::GH)
                } else if prefix == LOWER_T {
                    Some(HashRateUnit::TH)
                } else if prefix == LOWER_P {
                    Some(HashRateUnit::PH)
                } else if prefix == LOWER_E {
                    Some(HashRateUnit::EH)
                } else if prefix == LOWER_Z {
                    Some(HashRateUnit::ZH)
                } else if prefix == LOWER_Y {
                    Some(HashRateUnit::YH)
                } else {
                    None
                }
            } else {
                None
            }
        } else {
            None
        }
    }

    /// The power of ten by which a value in this unit is scaled to give
    /// hashes per second.
    ///
    /// The base unit `H` scales by ten to the power one, not zero: values
    /// reported in `H/s` are therefore multiplied by ten.
    pub open spec fn spec_exponent(self) -> int {
        match self {
            HashRateUnit::H => 1,
            HashRateUnit::KH => 3,
            HashRateUnit::MH => 6,
            HashRateUnit::GH => 9,
            HashRateUnit::TH => 12,
            HashRateUnit::PH => 15,
            HashRateUnit::EH => 18,
            HashRateUnit::ZH => 21,
            HashRateUnit::YH => 24,
        }
    }

    /// Decimal exponent of the unit.
    pub fn exponent(&self) -> (e: i32)
        ensures
            e == self.spec_exponent(),
            1 <= e <= 24,
    {
        match self {
            HashRateUnit::H => 1,
            HashRateUnit::KH => 3,
            HashRateUnit::MH => 6,
            HashRateUnit::GH => 9,
            HashRateUnit::TH => 12,
            HashRateUnit::PH => 15,
            HashRateUnit::EH => 18,
            HashRateUnit::ZH => 21,
            HashRateUnit::YH => 24,
        }
    }
}

} // verus!
