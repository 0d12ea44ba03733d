//! Looking up values in JSON documents.

use vstd::prelude::*;

verus! {

/// What a document holds at a place.
#[derive(Debug)]
pub enum JsonNode {
    /// The document is not JSON.
    Invalid,
    /// There is nothing at that place.
    Absent,
    /// A string.
    Text(String),
    /// A boolean.
    Flag(bool),
    /// A list of this length.
    List(usize),
    /// An object.
    Object,
    /// A number.
    Number,
    /// The value null.
    Null,
}

/// What a document holds at a place, with strings as their characters.
pub enum NodeView {
    Invalid,
    Absent,
    Text(Seq<char>),
    Flag(bool),
    List(nat),
    Object,
    Number,
    Null,
}

impl View for JsonNode {
    type V = NodeView;

    open spec fn view(&self) -> NodeView {
        match self {
            JsonNode::Invalid => NodeView::Invalid,
            JsonNode::Absent => NodeView::Absent,
            JsonNode::Text(s) => NodeView::Text(s@),
            JsonNode::Flag(b) => NodeView::Flag(*b),
            JsonNode::List(n) => NodeView::List(*n as nat),
            JsonNode::Object => NodeView::Object,
            JsonNode::Number => NodeView::Number,
            JsonNode::Null => NodeView::Null,
        }
    }
}

impl NodeView {
    /// The string, where there is one.
    pub open spec fn text(self) -> Option<Seq<char>> {
        match self {
            NodeView::Text(s) => Some(s),
            _ => None,
        }
    }

    /// The boolean, where there is one.
    pub open spec fn flag(self) -> Option<bool> {
        match self {
            NodeView::Flag(b) => Some(b),
            _ => None,
        }
    }

    /// There is a value, and it is not null.
    pub open spec fn is_present(self) -> bool {
        !(self is Invalid) && !(self is Absent) && !(self is Null)
    }
}

/// The node of a document to which a JSON pointer leads.
pub uninterp spec fn json_at(document: Seq<u8>, pointer: Seq<char>) -> NodeView;

/// Calls `serde_json::from_slice` for a `serde_json::Value`, and `Value::pointer` on
/// it. What kind of value is found, and its string, boolean or length, depends on
/// the bytes and on the pointer alone.
#[verifier::external_body]
pub(crate) fn json_node_at(document: &[u8], pointer: &str) -> (res: JsonNode)
    ensures
        res@ == json_at(document@, pointer@),
{
    let Ok(value) = serde_json::from_slice::<serde_json::Value>(document) else {
        return JsonNode::Invalid;
    };
    match value.pointer(pointer) {
        None => JsonNode::Absent,
        Some(serde_json::Value::String(s)) => JsonNode::Text(s.clone()),
        Some(serde_json::Value::Bool(b)) => JsonNode::Flag(*b),
        Some(serde_json::Value::Array(items)) => JsonNode::List(items.len()),
        Some(serde_json::Value::Object(_)) => JsonNode::Object,
        Some(serde_json::Value::Number(_)) => JsonNode::Number,
        Some(serde_json::Value::Null) => JsonNode::Null,
    }
}

impl JsonNode {
    /// The string, where there is one.
    pub fn into_text(self) -> (res: Option<String>)
        ensures
            match res {
                Some(s) => self@.text() == Some(s@),
                None => self@.text() is None,
            },
    {
        match self {
            JsonNode::Text(s) => Some(s),
            _ => None,
        }
    }

    /// The boolean, where there is one.
    pub fn into_flag(self) -> (res: Option<bool>)
        ensures
            res == self@.flag(),
    {
        match self {
            JsonNode::Flag(b) => Some(b),
            _ => None,
        }
    }

    /// Whether there is a value that is not null.
    pub fn is_present(&self) -> (res: bool)
        ensures
            res == self@.is_present(),
    {
        match self {
            JsonNode::Invalid => false,
            JsonNode::Absent => false,
            JsonNode::Null => false,
            _ => true,
        }
    }
}

/// Whether the bytes are a JSON document.
pub fn is_json(document: &[u8]) -> (res: bool)
    ensures
        res == !(json_at(document@, ""@) is Invalid),
{
    match json_node_at(document, "") {
        JsonNode::Invalid => false,
        _ => true,
    }
}

/// Only a string has a text and only a boolean a value; a place that the document lacks,
/// or that holds null, counts as missing, and every other one as there.
pub proof fn law_nodes(node: NodeView, text: Seq<char>, flag: bool)
    ensures
        node.text() == Some(text) <==> node == NodeView::Text(text),
        node.flag() == Some(flag) <==> node == NodeView::Flag(flag),
        !node.is_present() <==> node == NodeView::Invalid || node == NodeView::Absent || node
            == NodeView::Null,
{
}

} // verus!
