//! JSON documents, as the library reads them.
//!
//! `serde_json` does the parsing; what it produces is handed over as a
//! [`Json`], a tree of plain values, so the code that reads a document can be
//! stated and checked against it.

use vstd::prelude::*;
use crate::text::{
    chars_of, seq_eq,
};

verus! {

/// A JSON value.
#[derive(Debug, PartialEq)]
pub enum Json {
    Null,
    Bool(bool),
    /// A number: its text as `serde_json` writes it — which, with exact float
    /// parsing, reads back as the same number — and its value when it is a
    /// whole number that fits in an `i64`.
    Number(String, Option<i64>),
    String(String),
    Array(Vec<Json>),
    /// An object's members, each key once.
    Object(Vec<(String, Json)>),
}

/// What a [`Json`] holds, as mathematical values.
pub enum JsonValue {
    Null,
    Bool(bool),
    Number(Seq<char>, Option<i64>),
    Str(Seq<char>),
    Array(Seq<JsonValue>),
    Object(Seq<(Seq<char>, JsonValue)>),
}

pub open spec fn json_value(j: Json) -> JsonValue
    decreases j, 0nat,
{
    match j {
        Json::Null => JsonValue::Null,
        Json::Bool(b) => JsonValue::Bool(b),
        Json::Number(text, whole) => JsonValue::Number(text@, whole),
        Json::String(s) => JsonValue::Str(s@),
        Json::Array(items) => JsonValue::Array(items_value(items@)),
        Json::Object(members) => JsonValue::Object(members_value(members@)),
    }
}

pub open spec fn items_value(items: Seq<Json>) -> Seq<JsonValue>
    decreases items, 1nat,
{
    if items.len() == 0 {
        seq![]
    } else {
        seq![json_value(items[0])] + items_value(items.drop_first())
    }
}

pub open spec fn members_value(members: Seq<(String, Json)>) -> Seq<(Seq<char>, JsonValue)>
    decreases members, 1nat,
{
    if members.len() == 0 {
        seq![]
    } else {
        seq![(members[0].0@, json_value(members[0].1))] + members_value(members.drop_first())
    }
}

impl View for Json {
    type V = JsonValue;

    open spec fn view(&self) -> JsonValue {
        json_value(*self)
    }
}


pub proof fn lemma_members_value(members: Seq<(String, Json)>)
    ensures
        members_value(members).len() == members.len(),
        forall|i: int|
            0 <= i < members.len() ==> #[trigger] members_value(members)[i] == (
                members[i].0@,
                json_value(members[i].1),
            ),
    decreases members.len(),
{
    if members.len() > 0 {
        lemma_members_value(members.drop_first());
        assert forall|i: int| 0 <= i < members.len() implies #[trigger] members_value(members)[i]
            == (members[i].0@, json_value(members[i].1)) by {
            if i > 0 {
                assert(members.drop_first()[i - 1] == members[i]);
            }
        }
    }
}

/// The value of the member named `key`, the first one if there were several.
pub open spec fn member(members: Seq<(Seq<char>, JsonValue)>, key: Seq<char>) -> Option<JsonValue>
    decreases members.len(),
{
    if members.len() == 0 {
        None
    } else if members[0].0 == key {
        Some(members[0].1)
    } else {
        member(members.drop_first(), key)
    }
}

/// `Map::get`: the member named `key`.
pub fn get<'a>(members: &'a Vec<(String, Json)>, key: &str) -> (v: Option<&'a Json>)
    ensures
        v matches Some(j) ==> member(members_value(members@), key@) == Some(j@),
        v is None ==> member(members_value(members@), key@) is None,
{
    let ghost mv = members_value(members@);
    proof {
        lemma_members_value(members@);
    }
    let k = chars_of(key);
    let mut i: usize = 0;
    assert(mv.subrange(0, mv.len() as int) =~= mv);
    while i < members.len()
        invariant
            i <= members@.len(),
            mv == members_value(members@),
            mv.len() == members@.len(),
            k@ == key@,
            forall|j: int|
                0 <= j < members@.len() ==> #[trigger] mv[j] == (
                    members@[j].0@,
                    json_value(members@[j].1),
                ),
            member(mv, key@) == member(mv.subrange(i as int, mv.len() as int), key@),
        decreases members@.len() - i,
    {
        let name = chars_of(members[i].0.as_str());
        let ghost rest = mv.subrange(i as int, mv.len() as int);
        assert(rest[0] == mv[i as int]);
        assert(rest.drop_first() =~= mv.subrange(i + 1, mv.len() as int));
        if seq_eq(name.as_slice(), k.as_slice()) {
            return Some(&members[i].1);
        }
        i = i + 1;
    }
    None
}

/// What a value is, for an error message: never the value itself.
pub open spec fn spec_kind(v: JsonValue) -> Seq<char> {
    match v {
        JsonValue::Null => "null"@,
        JsonValue::Bool(_) => "a boolean"@,
        JsonValue::Number(_, _) => "a number"@,
        JsonValue::Str(_) => "a string"@,
        JsonValue::Array(_) => "an array"@,
        JsonValue::Object(_) => "an object"@,
    }
}

pub fn kind(v: &Json) -> (k: &'static str)
    ensures
        k@ == spec_kind(v@),
{
    match v {
        Json::Null => "null",
        Json::Bool(_) => "a boolean",
        Json::Number(_, _) => "a number",
        Json::String(_) => "a string",
        Json::Array(_) => "an array",
        Json::Object(_) => "an object",
    }
}

#[verifier::external_type_specification]
#[verifier::external_body]
pub struct ExJsonValue(serde_json::Value);

/// What `serde_json::from_str::<serde_json::Value>` makes of `text`: the
/// document, or the text of its error.
pub uninterp spec fn json_document(text: Seq<char>) -> Result<JsonValue, Seq<char>>;

/// `serde_json::from_str::<serde_json::Value>`, with the value it produces
/// handed over as a [`Json`] and an error as its message. Claimed: the
/// result is a function of `text` alone.
#[verifier::external_body]
pub(crate) fn parse_json(text: &str) -> (r: Result<Json, String>)
    ensures
        r is Ok ==> json_document(text@) == Ok::<JsonValue, Seq<char>>(r->Ok_0@),
        r is Err ==> json_document(text@) == Err::<JsonValue, Seq<char>>(r->Err_0@),
{
    match serde_json::from_str::<serde_json::Value>(text) {
        Ok(v) => Ok(json_from_serde(v)),
        Err(e) => Err(e.to_string()),
    }
}

/// A `serde_json::Value` as a [`Json`], variant for variant; a number keeps
/// `Number::to_string` and `Number::as_i64`.
#[verifier::external_body]
fn json_from_serde(v: serde_json::Value) -> Json {
    match v {
        serde_json::Value::Null => Json::Null,
        serde_json::Value::Bool(b) => Json::Bool(b),
        serde_json::Value::Number(n) => Json::Number(n.to_string(), n.as_i64()),
        serde_json::Value::String(s) => Json::String(s),
        serde_json::Value::Array(a) => Json::Array(a.into_iter().map(json_from_serde).collect()),
        serde_json::Value::Object(m) => Json::Object(
            m.into_iter().map(|(k, v)| (k, json_from_serde(v))).collect(),
        ),
    }
}

/// What `serde_json::to_string` makes of the `serde_json::Value` that `v`
/// stands for: its compact text.
pub uninterp spec fn json_text(v: JsonValue) -> Seq<char>;

/// `serde_json::to_string` on the `serde_json::Value` that `v` stands for.
/// Claimed: the result is a function of `v` alone. What the text is, byte for
/// byte, is left to the name. `to_string` fails only when a writer fails or a
/// map key is not a string, and a `Value` written to memory has neither, so
/// its error arm never runs.
#[verifier::external_body]
pub(crate) fn write_json(v: &Json) -> (r: String)
    ensures
        json_text(v@) == r@,
{
    serde_json::to_string(&json_to_serde(v)).unwrap_or_default()
}

/// A [`Json`] as the `serde_json::Value` it stands for, variant for variant:
/// a number is its text read back by `serde_json::from_str` (text that does
/// not read stands for null), and an object's members are inserted in order,
/// a later key replacing an earlier one.
#[verifier::external_body]
fn json_to_serde(v: &Json) -> serde_json::Value {
    match v {
        Json::Null => serde_json::Value::Null,
        Json::Bool(b) => serde_json::Value::Bool(*b),
        Json::Number(text, _) => serde_json::from_str(text).unwrap_or(serde_json::Value::Null),
        Json::String(s) => serde_json::Value::String(s.clone()),
        Json::Array(a) => serde_json::Value::Array(a.iter().map(json_to_serde).collect()),
        Json::Object(m) => serde_json::Value::Object(
            m.iter().map(|(k, v)| (k.clone(), json_to_serde(v))).collect(),
        ),
    }
}

} // verus!
