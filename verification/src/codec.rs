//! Parsing JSON text into [`Node`] trees and serializing them back.
//!
//! Both directions go through serde_json. What that crate returns is a
//! function of the text (or of the tree) alone, so each direction is named
//! by an uninterpreted spec function: [`parsed_json`] for parsing and
//! [`json_text_of`] for serialization.

use vstd::prelude::*;

use crate::node::{Entry, Node, NodeView};

verus! {

#[verifier::external_type_specification]
#[verifier::external_body]
pub struct ExValue(serde_json::Value);

/// What a text parses to as JSON: `Some` of the tree when the text is valid
/// JSON, `None` when it is not. serde_json decides; the result depends on the
/// text alone.
pub uninterp spec fn parsed_json(text: Seq<char>) -> Option<NodeView>;

/// The JSON text that an object with the given fields serializes to; the
/// result depends on the fields alone.
pub uninterp spec fn json_text_of(fields: Seq<crate::node::EntryView>) -> Seq<char>;

/// Converts serde_json's tree into the library's [`Node`], variant by
/// variant; numbers keep their literal text.
#[verifier::external_body]
fn node_of_value(v: serde_json::Value) -> Node {
    match v {
        serde_json::Value::Null => Node::Null,
        serde_json::Value::Bool(b) => Node::Bool(b),
        serde_json::Value::Number(n) => Node::Num(n.to_string()),
        serde_json::Value::String(s) => Node::Str(s),
        serde_json::Value::Array(a) => Node::Arr(a.into_iter().map(node_of_value).collect()),
        serde_json::Value::Object(m) => Node::Obj(
            m.into_iter().map(|(k, w)| Entry { key: k, value: node_of_value(w) }).collect(),
        ),
    }
}

/// Converts a [`Node`] back into serde_json's tree, variant by variant.
#[verifier::external_body]
fn value_of_node(n: &Node) -> serde_json::Value {
    match n {
        Node::Null => serde_json::Value::Null,
        Node::Bool(b) => serde_json::Value::Bool(*b),
        Node::Num(s) => match serde_json::from_str::<serde_json::Number>(s) {
            Ok(num) => serde_json::Value::Number(num),
            Err(_) => serde_json::Value::String(s.clone()),
        },
        Node::Str(s) => serde_json::Value::String(s.clone()),
        Node::Arr(a) => serde_json::Value::Array(a.iter().map(value_of_node).collect()),
        Node::Obj(f) => serde_json::Value::Object(
            f.iter().map(|e| (e.key.clone(), value_of_node(&e.value))).collect(),
        ),
    }
}

/// Relies on serde_json::from_str::<Value>: whether a text parses as JSON,
/// and to what tree, is a function of the text alone. On failure the error
/// carries serde_json's diagnostic.
#[verifier::external_body]
pub(crate) fn parse_json_text(text: &str) -> (r: Result<Node, String>)
    ensures
        match r {
            Ok(n) => parsed_json(text@) == Some(n.deep_view()),
            Err(_) => parsed_json(text@) is None,
        },
{
    match serde_json::from_str::<serde_json::Value>(text) {
        Ok(v) => Ok(node_of_value(v)),
        Err(e) => Err(e.to_string()),
    }
}

/// Relies on serde_json::to_string: the serialized text is a function of the
/// object alone (serialization of a JSON tree cannot fail: every key is a
/// string).
#[verifier::external_body]
fn object_json_text(fields: &Vec<Entry>) -> (r: String)
    ensures
        r@ == json_text_of(fields.deep_view()),
{
    let m: serde_json::Map<String, serde_json::Value> =
        fields.iter().map(|e| (e.key.clone(), value_of_node(&e.value))).collect();
    serde_json::to_string(&m).unwrap_or_default()
}

/// The JSON text that an object serializes to: the write-back half of the
/// library, for a caller that stores a resolved document.
pub fn serialize_json_ld(fields: &Vec<Entry>) -> (r: String)
    ensures
        r@ == json_text_of(fields.deep_view()),
{
    object_json_text(fields)
}

} // verus!
