//! A read-only view of JSON documents parsed by `serde_json`.
//!
//! A parsed document is described by its tree: a map from each path of
//! object keys (the root is the empty path) to the kind of node found there.
//! Members of arrays are not addressed by paths; the lookups this crate makes
//! only descend through objects.
use vstd::prelude::*;

verus! {

/// `serde_json::Value`, carried through opaquely.
#[verifier::external_type_specification]
#[verifier::external_body]
pub struct ExJsonValue(serde_json::Value);

/// What a JSON node is, as far as this crate reads it.
pub enum JsonNode {
    Null,
    Bool(bool),
    /// A number that `serde_json` holds as an unsigned 64-bit integer.
    UInt(u64),
    /// Any other number (negative integers and floating-point numbers).
    OtherNumber,
    Str(Seq<char>),
    Array,
    Object,
}

/// Paths of object keys, from the root of a document.
pub type JsonPath = Seq<Seq<char>>;

/// The tree of a parsed value: each object-key path that leads to a node,
/// mapped to that node.
pub uninterp spec fn json_tree(v: serde_json::Value) -> Map<JsonPath, JsonNode>;

/// What `serde_json::from_slice::<serde_json::Value>` yields on `bytes`:
/// `None` where it reports an error, else the tree of the parsed value.
pub uninterp spec fn json_parse(bytes: Seq<u8>) -> Option<Map<JsonPath, JsonNode>>;

/// The node at the root of a tree, if it has one.
pub open spec fn json_root(t: Map<JsonPath, JsonNode>) -> Option<JsonNode> {
    if t.dom().contains(Seq::<Seq<char>>::empty()) {
        Some(t[Seq::<Seq<char>>::empty()])
    } else {
        None
    }
}

/// The subtree below the member `key` of the root object.
pub open spec fn json_subtree(t: Map<JsonPath, JsonNode>, key: Seq<char>) -> Map<JsonPath, JsonNode> {
    Map::new(
        |p: JsonPath| t.dom().contains(seq![key] + p),
        |p: JsonPath| t[seq![key] + p],
    )
}

/// Whether `Value::get(key)` finds a member: the root is an object that has `key`.
pub open spec fn json_has_member(t: Map<JsonPath, JsonNode>, key: Seq<char>) -> bool {
    json_root(t) == Some(JsonNode::Object) && t.dom().contains(seq![key])
}

/// `serde_json::from_slice::<serde_json::Value>`.
/// Claimed: the result is `None` exactly when the parse fails, and otherwise a
/// value whose tree is the parse of `bytes`.
#[verifier::external_body]
pub(crate) fn json_from_slice(bytes: &[u8]) -> (r: Option<serde_json::Value>)
    ensures
        match r {
            Some(v) => json_parse(bytes@) == Some(json_tree(v)),
            None => json_parse(bytes@) is None,
        },
{
    serde_json::from_slice::<serde_json::Value>(bytes).ok()
}

/// `serde_json::Value::get` with a string key.
/// Claimed (from the source: an object looks the key up in its map, any other
/// value gives `None`): a member is returned exactly when the root is an
/// object holding `key`, and its tree is the subtree below that key.
#[verifier::external_body]
pub(crate) fn json_get<'a>(v: &'a serde_json::Value, key: &str) -> (r: Option<&'a serde_json::Value>)
    ensures
        r is Some <==> json_has_member(json_tree(*v), key@),
        r matches Some(c) ==> json_tree(*c) == json_subtree(json_tree(*v), key@),
{
    v.get(key)
}

/// `serde_json::Value::as_str`.
/// Claimed: `Some` exactly when the value is a string, holding its characters.
#[verifier::external_body]
pub(crate) fn json_as_str(v: &serde_json::Value) -> (r: Option<&str>)
    ensures
        match json_root(json_tree(*v)) {
            Some(JsonNode::Str(s)) => r matches Some(x) && x@ == s,
            _ => r is None,
        },
{
    v.as_str()
}

/// `serde_json::Value::as_u64`.
/// Claimed: `Some(n)` exactly when the value is a number held as the unsigned integer `n`.
#[verifier::external_body]
pub(crate) fn json_as_u64(v: &serde_json::Value) -> (r: Option<u64>)
    ensures
        match json_root(json_tree(*v)) {
            Some(JsonNode::UInt(n)) => r == Some(n),
            _ => r is None,
        },
{
    v.as_u64()
}

} // verus!
