//! JSON documents as plain values.
//!
//! Parsing is done by `serde_json`; this module turns the parsed tree into
//! a value of the crate's own [`Json`] type, on which the decoders work.

use vstd::prelude::*;
use vstd::utf8::encode_utf8;

use crate::decimal::{decimal_of, Decimal, DecimalValue, PARSED_EXPONENT_BOUND};
use crate::scan::{parse_u64, unsigned_of};
use crate::text::str_eq;

verus! {

/// A JSON value.
///
/// A number keeps the text that the parser reports for it; an object keeps
/// its members as a list of pairs.
#[derive(Debug, PartialEq)]
pub enum Json {
    /// `null`
    Null,
    /// `true` or `false`
    Bool(bool),
    /// A number, as decimal text
    Number(String),
    /// A string
    Text(String),
    /// An array
    Array(Vec<Json>),
    /// An object
    Object(Vec<(String, Json)>),
}

/// `serde_json::Value`, the tree that the parser builds. Nothing is seen
/// of its inside: it is carried from the parser to the copy.
#[verifier::external_type_specification]
#[verifier::external_body]
pub struct ExValue(serde_json::Value);

/// The tree that `serde_json::from_str` gives for a text, if it takes it.
pub uninterp spec fn parsed_value(text: Seq<char>) -> Option<serde_json::Value>;

/// What a parsed tree holds, written as a [`Json`].
pub uninterp spec fn value_tree(value: serde_json::Value) -> Json;

/// Calls `serde_json::from_str` for a `serde_json::Value`.
///
/// The result is a function of the text alone: the tree is the one named by
/// [`parsed_value`], and the call fails exactly when there is none. A
/// failure comes back as the message that `serde_json` gives for it, of
/// which nothing is claimed.
#[verifier::external_body]
fn value_from_text(text: &str) -> (r: Result<serde_json::Value, String>)
    ensures
        match r {
            Ok(v) => parsed_value(text@) == Some(v),
            Err(_) => parsed_value(text@) is None,
        },
{
    serde_json::from_str::<serde_json::Value>(text).map_err(|e| e.to_string())
}

/// Copies a `serde_json::Value` into a [`Json`], variant by variant.
///
/// A number is written out with `serde_json::Number`'s `Display`; the
/// members of an object come in the order in which the map hands them out.
#[verifier::external_body]
fn json_from_value(value: &serde_json::Value) -> (r: Json)
    ensures
        r == value_tree(*value),
{
    match value {
        serde_json::Value::Null => Json::Null,
        serde_json::Value::Bool(b) => Json::Bool(*b),
        serde_json::Value::Number(n) => Json::Number(n.to_string()),
        serde_json::Value::String(s) => Json::Text(s.clone()),
        serde_json::Value::Array(a) => Json::Array(a.iter().map(json_from_value).collect()),
        serde_json::Value::Object(m) => Json::Object(
            m.iter().map(|(k, v)| (k.clone(), json_from_value(v))).collect(),
        ),
    }
}

/// The document that a text writes, if it is JSON.
pub open spec fn document(text: Seq<char>) -> Option<Json> {
    match parsed_value(text) {
        Some(v) => Some(value_tree(v)),
        None => None,
    }
}

/// The value of the first of `members`, from index `from` on, whose key
/// is `key`.
pub open spec fn first_member(members: Seq<(String, Json)>, key: Seq<char>, from: int) -> Option<
    Json,
>
    decreases members.len() - from,
{
    if from < 0 || from >= members.len() {
        None
    } else if members[from].0@ == key {
        Some(members[from].1)
    } else {
        first_member(members, key, from + 1)
    }
}

/// Looks up the first of `members` whose key is `key`.
fn lookup<'a>(members: &'a Vec<(String, Json)>, key: &str) -> (r: Option<&'a Json>)
    ensures
        match r {
            Some(j) => first_member(members@, key@, 0) == Some(*j),
            None => first_member(members@, key@, 0) is None,
        },
{
    let n = members.len();
    let mut i: usize = 0;
    while i < n
        invariant
            i <= n,
            n == members@.len(),
            first_member(members@, key@, 0) == first_member(members@, key@, i as int),
        decreases n - i,
    {
        if str_eq(members[i].0.as_str(), key) {
            return Some(&members[i].1);
        }
        i = i + 1;
    }
    None
}

impl Json {
    /// Parses a JSON text.
    ///
    /// `Ok` with the document exactly when the text is one; otherwise the
    /// parser's message.
    pub fn parse(text: &str) -> (r: Result<Json, String>)
        ensures
            match r {
                Ok(j) => document(text@) == Some(j),
                Err(_) => document(text@) is None,
            },
    {
        match value_from_text(text) {
            Ok(v) => Ok(json_from_value(&v)),
            Err(e) => Err(e),
        }
    }

    /// The member of an object with the given key: the first, should the
    /// key stand more than once. `None` for anything but an object.
    pub open spec fn member(self, key: Seq<char>) -> Option<Json> {
        match self {
            Json::Object(members) => first_member(members@, key, 0),
            _ => None,
        }
    }

    /// The text of a string.
    pub open spec fn text(self) -> Option<Seq<char>> {
        match self {
            Json::Text(t) => Some(t@),
            _ => None,
        }
    }

    /// The number that a JSON number writes with digits alone: no sign,
    /// no point, no exponent.
    pub open spec fn unsigned(self) -> Option<nat> {
        match self {
            Json::Number(t) => unsigned_of(encode_utf8(t@)),
            _ => None,
        }
    }

    /// The number that a JSON number writes.
    pub open spec fn number(self) -> Option<DecimalValue> {
        match self {
            Json::Number(t) => decimal_of(encode_utf8(t@)),
            _ => None,
        }
    }

    /// The number that a JSON string writes as a decimal literal.
    pub open spec fn amount(self) -> Option<DecimalValue> {
        match self {
            Json::Text(t) => decimal_of(encode_utf8(t@)),
            _ => None,
        }
    }

    /// Looks up a member of an object by its key.
    pub fn get(&self, key: &str) -> (r: Option<&Json>)
        ensures
            match r {
                Some(j) => self.member(key@) == Some(*j),
                None => self.member(key@) is None,
            },
    {
        match self {
            Json::Object(members) => lookup(members, key),
            _ => None,
        }
    }

    /// The text of a string.
    pub fn as_text(&self) -> (r: Option<&String>)
        ensures
            match r {
                Some(t) => self.text() == Some(t@),
                None => self.text() is None,
            },
    {
        match self {
            Json::Text(t) => Some(t),
            _ => None,
        }
    }

    /// A number written with digits alone, where it fits 64 bits.
    pub fn as_u64(&self) -> (r: Option<u64>)
        ensures
            r == match self.unsigned() {
                Some(n) => if n <= u64::MAX {
                    Some(n as u64)
                } else {
                    None
                },
                None => None,
            },
    {
        match self {
            Json::Number(t) => parse_u64(t.as_str()),
            _ => None,
        }
    }

    /// A number written with digits alone, where it fits 32 bits.
    pub fn as_u32(&self) -> (r: Option<u32>)
        ensures
            r == match self.unsigned() {
                Some(n) => if n <= u32::MAX {
                    Some(n as u32)
                } else {
                    None
                },
                None => None,
            },
    {
        match self.as_u64() {
            Some(n) => if n <= u32::MAX as u64 {
                Some(n as u32)
            } else {
                None
            },
            None => None,
        }
    }

    /// A JSON number, exactly.
    pub fn as_number(&self) -> (r: Option<Decimal>)
        ensures
            match r {
                Some(d) => self.number() == Some(d@),
                None => self.number() is None,
            },
            r matches Some(d) ==> d@.exponent <= PARSED_EXPONENT_BOUND,
    {
        match self {
            Json::Number(t) => Decimal::parse(t.as_str()),
            _ => None,
        }
    }

    /// A decimal amount that is written as a JSON string.
    pub fn as_amount(&self) -> (r: Option<Decimal>)
        ensures
            match r {
                Some(d) => self.amount() == Some(d@),
                None => self.amount() is None,
            },
    {
        match self {
            Json::Text(t) => Decimal::parse(t.as_str()),
            _ => None,
        }
    }
}

} // verus!
