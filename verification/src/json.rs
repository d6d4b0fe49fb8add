//! JSON documents, as far as the agent's replies are read.
//!
//! `serde_json` parses the text; what it yields is rebuilt as a `Json`, on
//! which the verified code works.

use crate::text::{lemma_prefix_run_is, prefix_run};
use serde_json::Value;
use vstd::prelude::*;

verus! {

/// `serde_json::Value`, which only the conversion into `Json` looks into.
#[verifier::external_type_specification]
#[verifier::external_body]
pub struct ExValue(Value);

/// A JSON document.
#[derive(Debug, PartialEq, Eq)]
pub enum Json {
    Null,
    Bool(bool),
    /// A number, kept as the text that `serde_json` prints for it.
    Number(String),
    Text(String),
    Array(Vec<Json>),
    /// An object: its members in the order in which `serde_json` holds them.
    Object(Vec<(String, Json)>),
}

/// What `serde_json::from_str` reads from `raw`, rebuilt as a `Json`; `None`
/// where it rejects the text.
pub uninterp spec fn parsed_json(raw: Seq<char>) -> Option<Json>;

/// The members that are not named `key`.
pub open spec fn not_named(key: Seq<char>) -> spec_fn((String, Json)) -> bool {
    |member: (String, Json)| member.0@ != key
}

/// Index of the first member of `members` named `key`, or their number when
/// none has that name.
pub open spec fn member_index(members: Seq<(String, Json)>, key: Seq<char>) -> nat {
    prefix_run(members, not_named(key))
}

/// The value of the member `key` of the object `json`; `None` where `json`
/// is no object or has no such member.
pub open spec fn field_of(json: Json, key: Seq<char>) -> Option<Json> {
    match json {
        Json::Object(members) => {
            let i = member_index(members@, key) as int;
            if i < members@.len() {
                Some(members@[i].1)
            } else {
                None
            }
        },
        _ => None,
    }
}

/// The text of `json` where it is a string.
pub open spec fn text_of(json: Json) -> Option<Seq<char>> {
    match json {
        Json::Text(text) => Some(text@),
        _ => None,
    }
}

/// The text of the member `key` of `json`; empty where there is no such
/// member or it is no string.
pub open spec fn field_text(json: Json, key: Seq<char>) -> Seq<char> {
    match field_of(json, key) {
        Some(Json::Text(text)) => text@,
        _ => Seq::empty(),
    }
}

/// The conversion that `parse_json` applies to what `serde_json` parsed. It
/// rebuilds a `serde_json::Value` as a `Json`, variant for variant: a number
/// becomes the text of its `to_string`, an array its items in order, an object
/// its members in the order of the map. Nothing is stated of the result.
#[verifier::external_body]
fn json_of(value: Value) -> Json {
    match value {
        Value::Null => Json::Null,
        Value::Bool(b) => Json::Bool(b),
        Value::Number(n) => Json::Number(n.to_string()),
        Value::String(s) => Json::Text(s),
        Value::Array(items) => Json::Array(items.into_iter().map(json_of).collect()),
        Value::Object(map) => Json::Object(map.into_iter().map(|(k, v)| (k, json_of(v))).collect()),
    }
}

/// Parses `raw` with `serde_json::from_str`. The result is a function of the
/// text and is known here only by its name.
#[verifier::external_body]
pub(crate) fn parse_json(raw: &str) -> (doc: Option<Json>)
    ensures
        doc == parsed_json(raw@),
{
    match serde_json::from_str::<Value>(raw) {
        Ok(value) => Some(json_of(value)),
        Err(_) => None,
    }
}

/// Index of the first member of `members` named `key`.
fn find_member(members: &Vec<(String, Json)>, key: &str) -> (i: usize)
    ensures
        i == member_index(members@, key@),
        i <= members@.len(),
{
    let wanted = key.to_owned();
    let mut i: usize = 0;
    while i < members.len()
        invariant
            i <= members.len(),
            wanted@ == key@,
            forall|k: int| 0 <= k < i ==> members@[k].0@ != key@,
        decreases members.len() - i,
    {
        if members[i].0 == wanted {
            proof {
                lemma_prefix_run_is(members@, not_named(key@), i as int);
            }
            return i;
        }
        i += 1;
    }
    proof {
        lemma_prefix_run_is(members@, not_named(key@), i as int);
    }
    i
}

impl Json {
    /// The value of the member `key`, where `self` is an object that has one.
    pub fn field(&self, key: &str) -> (found: Option<&Json>)
        ensures
            match found {
                Some(value) => field_of(*self, key@) == Some(*value),
                None => field_of(*self, key@) is None,
            },
    {
        match self {
            Json::Object(members) => {
                let i = find_member(members, key);
                if i < members.len() {
                    Some(&members[i].1)
                } else {
                    None
                }
            },
            _ => None,
        }
    }

    /// Takes the value of the member `key` out of `self`.
    pub fn into_field(self, key: &str) -> (found: Option<Json>)
        ensures
            found == field_of(self, key@),
    {
        match self {
            Json::Object(mut members) => {
                let i = find_member(&members, key);
                if i < members.len() {
                    let member = members.remove(i);
                    Some(member.1)
                } else {
                    None
                }
            },
            _ => None,
        }
    }

    /// The text, where `self` is a string.
    pub fn as_text(&self) -> (text: Option<&str>)
        ensures
            match text {
                Some(t) => text_of(*self) == Some(t@),
                None => text_of(*self) is None,
            },
    {
        match self {
            Json::Text(text) => Some(text.as_str()),
            _ => None,
        }
    }
}

} // verus!
