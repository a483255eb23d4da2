//! JSON documents as plain trees.

use crate::seqs::{first_index, lemma_first_index};
use vstd::prelude::*;

verus! {

/// A JSON value. A number is kept if it is an integer that fits `i64`; of
/// any other number only that it was one.
#[derive(Debug, PartialEq, Eq)]
pub enum Json {
    Null,
    Bool(bool),
    Number(Option<i64>),
    Text(String),
    List(Vec<Json>),
    Object(Vec<(String, Json)>),
}

/// The test "this member has the key `key`".
pub open spec fn has_key(key: Seq<char>) -> spec_fn((String, Json)) -> bool {
    |member: (String, Json)| member.0@ == key
}

impl Json {
    /// The value of the first member with the key `key`, if `self` is an
    /// object and has one.
    pub open spec fn field(self, key: Seq<char>) -> Option<Json> {
        match self {
            Json::Object(members) => {
                let at = first_index(members@, has_key(key));
                if at < members@.len() {
                    Some(members@[at].1)
                } else {
                    None
                }
            },
            _ => None,
        }
    }

    /// The text, if `self` is a string.
    pub open spec fn text(self) -> Option<Seq<char>> {
        match self {
            Json::Text(s) => Some(s@),
            _ => None,
        }
    }

    /// The number, if `self` is an integer that fits `i64`.
    pub open spec fn integer(self) -> Option<i64> {
        match self {
            Json::Number(n) => n,
            _ => None,
        }
    }

    /// The items, if `self` is an array.
    pub open spec fn items(self) -> Option<Seq<Json>> {
        match self {
            Json::List(items) => Some(items@),
            _ => None,
        }
    }

    /// The value of the first member with the key `key`, if `self` is an
    /// object and has one.
    pub fn get(&self, key: &str) -> (value: Option<&Json>)
        ensures
            match value {
                Some(v) => self.field(key@) == Some(*v),
                None => self.field(key@) is None,
            },
    {
        match self {
            Json::Object(members) => {
                let wanted = String::from_str(key);
                let mut i: usize = 0;
                while i < members.len()
                    invariant
                        i <= members.len(),
                        wanted@ == key@,
                        *self == Json::Object(*members),
                        forall|j: int| 0 <= j < i ==> !has_key(key@)(#[trigger] members@[j]),
                    decreases members.len() - i,
                {
                    if members[i].0 == wanted {
                        proof {
                            assert(has_key(key@)(members@[i as int]));
                            lemma_first_index(members@, has_key(key@), i as int);
                        }
                        return Some(&members[i].1);
                    }
                    i = i + 1;
                }
                proof {
                    lemma_first_index(members@, has_key(key@), i as int);
                }
                None
            },
            _ => None,
        }
    }

    /// The text, if `self` is a string.
    pub fn as_str(&self) -> (text: Option<&str>)
        ensures
            match text {
                Some(t) => self.text() == Some(t@),
                None => self.text() is None,
            },
    {
        match self {
            Json::Text(s) => Some(s.as_str()),
            _ => None,
        }
    }

    /// The number, if `self` is an integer that fits `i64`.
    pub fn as_i64(&self) -> (n: Option<i64>)
        ensures
            n == self.integer(),
    {
        match self {
            Json::Number(n) => *n,
            _ => None,
        }
    }

    /// The items, if `self` is an array.
    pub fn as_array(&self) -> (items: Option<&Vec<Json>>)
        ensures
            match items {
                Some(v) => self.items() == Some(v@),
                None => self.items() is None,
            },
    {
        match self {
            Json::List(items) => Some(items),
            _ => None,
        }
    }
}

/// A JSON value as `serde_json` holds it.
#[verifier::external_type_specification]
#[verifier::external_body]
pub struct ExValue(serde_json::Value);

/// The tree that the JSON text `text` stands for, if it is JSON.
pub uninterp spec fn parsed_json(text: Seq<char>) -> Option<Json>;

/// The plain tree of a `serde_json::Value`, variant for variant.
///
/// Matches on the variants of `Value`. An array keeps its items in order; an
/// object its members in the order in which `serde_json::Map::iter` walks
/// them; a number becomes what `Number::as_i64` gives for it. Strings and
/// keys are copied. Nothing is claimed of the result here: `read_json`, the
/// one caller, names what the two together give.
#[verifier::external_body]
fn tree_of(value: &serde_json::Value) -> Json {
    match value {
        serde_json::Value::Null => Json::Null,
        serde_json::Value::Bool(b) => Json::Bool(*b),
        serde_json::Value::Number(n) => Json::Number(n.as_i64()),
        serde_json::Value::String(s) => Json::Text(s.clone()),
        serde_json::Value::Array(items) => Json::List(items.iter().map(tree_of).collect()),
        serde_json::Value::Object(members) => Json::Object(
            members.iter().map(|(k, v)| (k.clone(), tree_of(v))).collect(),
        ),
    }
}

/// Reads `text` as one JSON document.
///
/// Calls `serde_json::from_str` for a `Value` and hands the value out as a
/// plain tree, through `tree_of`; an error of `from_str` gives `None`.
/// `from_str` takes the text of one JSON value with nothing but white space
/// round it, nested no deeper than its recursion limit. What it returns
/// depends on the text alone: the same text gives the same tree.
#[verifier::external_body]
fn read_json(text: &str) -> (tree: Option<Json>)
    ensures
        tree == parsed_json(text@),
{
    match serde_json::from_str::<serde_json::Value>(text) {
        Ok(value) => Some(tree_of(&value)),
        Err(_) => None,
    }
}

/// Reads `text` as one JSON document; `None` if it is none.
pub fn parse(text: &str) -> (tree: Option<Json>)
    ensures
        tree == parsed_json(text@),
{
    read_json(text)
}

} // verus!
