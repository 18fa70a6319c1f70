//! Reading the members of a JSON object as typed values.

use vstd::prelude::*;
use vstd::utf8::encode_utf8;

use crate::decimal::{decimal_of, Decimal, DecimalValue};
use crate::hashrate::{HashRate, HashRateValue};
use crate::json::Json;
use crate::unit::{unit_named, HashRateUnit};

verus! {

/// The key under which a record names the unit of its hash rates.
pub const UNIT_KEY: &'static str = "hash_rate_unit";

/// The kinds of JSON value.
pub enum Kind {
    /// `null`
    Null,
    /// `true` or `false`
    Bool,
    /// A number
    Number,
    /// A string
    Text,
    /// An array
    Array,
    /// An object
    Object,
}

/// What a record asks of one of its members.
pub enum Shape {
    /// A number written with digits alone that fits 64 bits
    U64,
    /// A number written with digits alone that fits 32 bits
    U32,
    /// A number
    Number,
    /// A string
    Text,
    /// A string that holds a decimal literal
    Amount,
    /// A string that names a hash-rate unit
    Unit,
    /// An array
    Array,
    /// An object
    Object,
}

impl Shape {
    /// The kind of JSON value that has this shape.
    pub open spec fn kind(self) -> Kind {
        match self {
            Shape::U64 | Shape::U32 | Shape::Number => Kind::Number,
            Shape::Text | Shape::Amount | Shape::Unit => Kind::Text,
            Shape::Array => Kind::Array,
            Shape::Object => Kind::Object,
        }
    }
}

/// The kind of a JSON value.
pub open spec fn kind_of(json: Json) -> Kind {
    match json {
        Json::Null => Kind::Null,
        Json::Bool(_) => Kind::Bool,
        Json::Number(_) => Kind::Number,
        Json::Text(_) => Kind::Text,
        Json::Array(_) => Kind::Array,
        Json::Object(_) => Kind::Object,
    }
}

/// Whether a JSON value has a shape.
pub open spec fn fits(json: Json, shape: Shape) -> bool {
    match shape {
        Shape::U64 => json.unsigned() matches Some(n) && n <= u64::MAX,
        Shape::U32 => json.unsigned() matches Some(n) && n <= u32::MAX,
        Shape::Number => json.number() is Some,
        Shape::Text => json.text() is Some,
        Shape::Amount => json.amount() is Some,
        Shape::Unit => json.text() matches Some(name) && unit_named(encode_utf8(name)) is Some,
        Shape::Array => json is Array,
        Shape::Object => json is Object,
    }
}

/// Whether the member `key` of `json` is there and has a shape.
pub open spec fn member_fits(json: Json, key: Seq<char>, shape: Shape) -> bool {
    json.member(key) matches Some(m) && fits(m, shape)
}

/// A value of the wrong kind does not have the shape.
pub proof fn lemma_shape_needs_kind(json: Json, shape: Shape)
    requires
        fits(json, shape),
    ensures
        kind_of(json) == shape.kind(),
{
}

/// A string has the shape of an amount exactly when it holds a decimal
/// literal.
pub proof fn lemma_amount_needs_literal(text: String)
    ensures
        fits(Json::Text(text), Shape::Amount) <==> decimal_of(encode_utf8(text@)) is Some,
{
}

/// The member `key` of `json` as a whole number of at most 64 bits.
pub open spec fn u64_member(json: Json, key: Seq<char>) -> Option<u64> {
    match json.member(key) {
        Some(m) => match m.unsigned() {
            Some(n) => if n <= u64::MAX {
                Some(n as u64)
            } else {
                None
            },
            None => None,
        },
        None => None,
    }
}

/// The member `key` of `json` as a whole number of at most 32 bits.
pub open spec fn u32_member(json: Json, key: Seq<char>) -> Option<u32> {
    match json.member(key) {
        Some(m) => match m.unsigned() {
            Some(n) => if n <= u32::MAX {
                Some(n as u32)
            } else {
                None
            },
            None => None,
        },
        None => None,
    }
}

/// The member `key` of `json` as the text of a JSON string.
pub open spec fn text_member(json: Json, key: Seq<char>) -> Option<Seq<char>> {
    match json.member(key) {
        Some(m) => m.text(),
        None => None,
    }
}

/// The member `key` of `json` as a JSON number.
pub open spec fn number_member(json: Json, key: Seq<char>) -> Option<DecimalValue> {
    match json.member(key) {
        Some(m) => m.number(),
        None => None,
    }
}

/// The member `key` of `json` as a decimal amount, which the wire writes
/// as a JSON string.
pub open spec fn amount_member(json: Json, key: Seq<char>) -> Option<DecimalValue> {
    match json.member(key) {
        Some(m) => m.amount(),
        None => None,
    }
}

/// The unit that a record names for its hash rates.
pub open spec fn unit_member(json: Json) -> Option<HashRateUnit> {
    match text_member(json, UNIT_KEY@) {
        Some(name) => unit_named(encode_utf8(name)),
        None => None,
    }
}

/// The member `key` of `json` as a hash rate in the record's unit.
pub open spec fn rate_member(json: Json, key: Seq<char>) -> Option<HashRateValue> {
    match (unit_member(json), number_member(json, key)) {
        (Some(unit), Some(value)) => Some(HashRateValue { unit, value }),
        _ => None,
    }
}

/// Reads a member as a whole number of at most 64 bits.
pub fn get_u64(json: &Json, key: &str) -> (r: Option<u64>)
    ensures
        r == u64_member(*json, key@),
{
    match json.get(key) {
        Some(m) => m.as_u64(),
        None => None,
    }
}

/// Reads a member as a whole number of at most 32 bits.
pub fn get_u32(json: &Json, key: &str) -> (r: Option<u32>)
    ensures
        r == u32_member(*json, key@),
{
    match json.get(key) {
        Some(m) => m.as_u32(),
        None => None,
    }
}

/// Reads a member as text.
pub fn get_text(json: &Json, key: &str) -> (r: Option<String>)
    ensures
        match r {
            Some(t) => text_member(*json, key@) == Some(t@),
            None => text_member(*json, key@) is None,
        },
{
    match json.get(key) {
        Some(m) => match m.as_text() {
            Some(t) => Some(t.clone()),
            None => None,
        },
        None => None,
    }
}

/// Reads a member as a decimal amount.
pub fn get_amount(json: &Json, key: &str) -> (r: Option<Decimal>)
    ensures
        match r {
            Some(d) => amount_member(*json, key@) == Some(d@),
            None => amount_member(*json, key@) is None,
        },
{
    match json.get(key) {
        Some(m) => m.as_amount(),
        None => None,
    }
}

/// Reads a member as a JSON number.
pub fn get_number(json: &Json, key: &str) -> (r: Option<Decimal>)
    ensures
        match r {
            Some(d) => number_member(*json, key@) == Some(d@),
            None => number_member(*json, key@) is None,
        },
{
    match json.get(key) {
        Some(m) => m.as_number(),
        None => None,
    }
}

/// Reads the unit that a record names for its hash rates.
pub fn get_unit(json: &Json) -> (r: Option<HashRateUnit>)
    ensures
        r == unit_member(*json),
{
    match json.get(UNIT_KEY) {
        Some(m) => match m.as_text() {
            Some(name) => HashRateUnit::from_name(name.as_str()),
            None => None,
        },
        None => None,
    }
}

/// Reads a member as a hash rate in the given unit.
pub fn get_rate(json: &Json, key: &str, unit: HashRateUnit) -> (r: Option<HashRate>)
    ensures
        match r {
            Some(h) => number_member(*json, key@) == Some(h@.value) && h@.unit == unit,
            None => number_member(*json, key@) is None,
        },
{
    match json.get(key) {
        Some(m) => match m.as_number() {
            Some(value) => Some(HashRate::new(unit, value)),
            None => None,
        },
        None => None,
    }
}

} // verus!
