//! One level of a JSON document at a time.
//!
//! A JSON value is carried as its text. `parse_node` asks serde_json for the
//! top-level node of a text; the children of arrays and objects come back as
//! their own (compact) JSON text, to be read the same way when needed.
use serde_json::Value;
use vstd::prelude::*;

use crate::text::same_text;

verus! {

/// The top-level node of a JSON text; children are kept as JSON text.
pub enum JsonNode {
    Null,
    Bool(bool),
    Number,
    Str(String),
    Array(Vec<String>),
    Object(Vec<(String, String)>),
}

/// The mathematical form of a `JsonNode`.
pub enum JsonNodeView {
    Null,
    Bool(bool),
    Number,
    Str(Seq<char>),
    Array(Seq<Seq<char>>),
    Object(Seq<(Seq<char>, Seq<char>)>),
}

impl View for JsonNode {
    type V = JsonNodeView;

    open spec fn view(&self) -> JsonNodeView {
        match self {
            JsonNode::Null => JsonNodeView::Null,
            JsonNode::Bool(b) => JsonNodeView::Bool(*b),
            JsonNode::Number => JsonNodeView::Number,
            JsonNode::Str(s) => JsonNodeView::Str(s@),
            JsonNode::Array(items) => JsonNodeView::Array(items@.map_values(|t: String| t@)),
            JsonNode::Object(entries) => JsonNodeView::Object(
                entries@.map_values(|e: (String, String)| (e.0@, e.1@)),
            ),
        }
    }
}

/// The view of an optional node.
pub open spec fn node_view(n: Option<JsonNode>) -> Option<JsonNodeView> {
    match n {
        Some(node) => Some(node@),
        None => None,
    }
}

/// The view of an optional string.
pub open spec fn opt_text(o: Option<String>) -> Option<Seq<char>> {
    match o {
        Some(s) => Some(s@),
        None => None,
    }
}

/// What serde_json makes of `text`: `None` where it is not one JSON value,
/// else its top-level node, with each child written back as compact JSON text
/// and object members in the order of serde_json's map (sorted by key).
pub uninterp spec fn json_node_of(text: Seq<char>) -> Option<JsonNodeView>;

/// Parses `text` with `serde_json::from_str::<Value>` and tells the variants
/// of the `Value` apart; each child is written back with `Value`'s `Display`
/// (compact JSON). The contract names the result: it depends on `text` alone.
#[verifier::external_body]
pub(crate) fn parse_node(text: &str) -> (node: Option<JsonNode>)
    ensures
        node_view(node) == json_node_of(text@),
{
    match serde_json::from_str::<Value>(text) {
        Err(_) => None,
        Ok(Value::Null) => Some(JsonNode::Null),
        Ok(Value::Bool(b)) => Some(JsonNode::Bool(b)),
        Ok(Value::Number(_)) => Some(JsonNode::Number),
        Ok(Value::String(s)) => Some(JsonNode::Str(s)),
        Ok(Value::Array(a)) => Some(JsonNode::Array(a.iter().map(Value::to_string).collect())),
        Ok(Value::Object(m)) => Some(
            JsonNode::Object(m.iter().map(|(k, v)| (k.clone(), v.to_string())).collect()),
        ),
    }
}

/// The value text of the first member named `key`.
pub open spec fn member(entries: Seq<(Seq<char>, Seq<char>)>, key: Seq<char>) -> Option<Seq<char>>
    decreases entries.len(),
{
    if entries.len() == 0 {
        None
    } else if entries[0].0 == key {
        Some(entries[0].1)
    } else {
        member(entries.drop_first(), key)
    }
}

/// `Value::get(key)`: the member of an object; nothing for any other node.
pub open spec fn node_get(n: Option<JsonNodeView>, key: Seq<char>) -> Option<Seq<char>> {
    match n {
        Some(JsonNodeView::Object(entries)) => member(entries, key),
        _ => None,
    }
}

/// The node of an optional child text.
pub open spec fn child_node(t: Option<Seq<char>>) -> Option<JsonNodeView> {
    match t {
        Some(text) => json_node_of(text),
        None => None,
    }
}

/// `get(key).and_then(as_str).unwrap_or("")`.
pub open spec fn str_member(n: Option<JsonNodeView>, key: Seq<char>) -> Seq<char> {
    match child_node(node_get(n, key)) {
        Some(JsonNodeView::Str(s)) => s,
        _ => Seq::empty(),
    }
}

/// `get(key).and_then(as_bool).unwrap_or(false)`.
pub open spec fn bool_member(n: Option<JsonNodeView>, key: Seq<char>) -> bool {
    match child_node(node_get(n, key)) {
        Some(JsonNodeView::Bool(b)) => b,
        _ => false,
    }
}

proof fn lemma_member_skip(entries: Seq<(Seq<char>, Seq<char>)>, key: Seq<char>, i: int)
    requires
        0 <= i < entries.len(),
        entries[i].0 != key,
    ensures
        member(entries.skip(i), key) == member(entries.skip(i + 1), key),
{
    assert(entries.skip(i).drop_first() =~= entries.skip(i + 1));
}

/// The text of the member named `key` of an object node (`Value::get`).
pub fn get_member(node: &Option<JsonNode>, key: &str) -> (r: Option<String>)
    ensures
        opt_text(r) == node_get(node_view(*node), key@),
{
    match node {
        Some(JsonNode::Object(entries)) => {
            let ghost es = entries@.map_values(|e: (String, String)| (e.0@, e.1@));
            assert(es.skip(0) =~= es);
            assert(node_view(*node) == Some(JsonNodeView::Object(es)));
            let mut i: usize = 0;
            while i < entries.len()
                invariant
                    i <= entries.len(),
                    es == entries@.map_values(|e: (String, String)| (e.0@, e.1@)),
                    member(es, key@) == member(es.skip(i as int), key@),
                    node_view(*node) == Some(JsonNodeView::Object(es)),
                decreases entries.len() - i,
            {
                if same_text(entries[i].0.as_str(), key) {
                    let found = entries[i].1.clone();
                    assert(es[i as int] == (entries@[i as int].0@, entries@[i as int].1@));
                    assert(es.skip(i as int)[0] == es[i as int]);
                    assert(member(es.skip(i as int), key@) == Some(found@));
                    return Some(found);
                }
                proof {
                    lemma_member_skip(es, key@, i as int);
                }
                i = i + 1;
            }
            None
        },
        _ => None,
    }
}

/// The string member `key` of a node, or the empty string.
pub fn str_field(node: &Option<JsonNode>, key: &str) -> (r: String)
    ensures
        r@ == str_member(node_view(*node), key@),
{
    match get_member(node, key) {
        Some(child) => match parse_node(child.as_str()) {
            Some(JsonNode::Str(s)) => s,
            _ => String::new(),
        },
        None => String::new(),
    }
}

/// The boolean member `key` of a node, or `false`.
pub fn bool_field(node: &Option<JsonNode>, key: &str) -> (r: bool)
    ensures
        r == bool_member(node_view(*node), key@),
{
    match get_member(node, key) {
        Some(child) => match parse_node(child.as_str()) {
            Some(JsonNode::Bool(b)) => b,
            _ => false,
        },
        None => false,
    }
}

/// The node of the member `key` of a node (`None` where there is none, or
/// where its text is not JSON).
pub fn member_node(node: &Option<JsonNode>, key: &str) -> (r: Option<JsonNode>)
    ensures
        node_view(r) == child_node(node_get(node_view(*node), key@)),
{
    match get_member(node, key) {
        Some(child) => parse_node(child.as_str()),
        None => None,
    }
}

} // verus!
