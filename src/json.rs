//! A JSON value as the normalizer reads it. Numbers are kept as their text.

use vstd::prelude::*;

verus! {

/// A parsed JSON value; an object keeps its members in order.
#[derive(Debug, PartialEq)]
pub enum JsonValue {
    Null,
    Bool(bool),
    Number(String),
    String(String),
    Array(Vec<JsonValue>),
    Object(Vec<(String, JsonValue)>),
}

} // verus!
