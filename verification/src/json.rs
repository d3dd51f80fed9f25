//! JSON documents, as `serde_json` reads, changes and writes them.

use vstd::prelude::*;

verus! {

/// `serde_json::Value`, a JSON value. What it holds is named by `json_tree`.
#[verifier::external_type_specification]
#[verifier::external_body]
pub struct ExJsonValue(serde_json::Value);

/// What a JSON value holds. A number is the text that it is written as.
pub enum JsonTree {
    Null,
    Bool(bool),
    Number(Seq<char>),
    Text(Seq<char>),
    Array(Seq<JsonTree>),
    Object(Map<Seq<char>, JsonTree>),
}

/// What a `serde_json::Value` holds.
pub uninterp spec fn json_tree(value: serde_json::Value) -> JsonTree;

/// What `serde_json::from_str` reads from a text, or the message with which it refuses the text.
pub uninterp spec fn parsed_json(text: Seq<char>) -> Result<JsonTree, Seq<char>>;

/// What `serde_json::to_string_pretty` writes for a value.
pub uninterp spec fn pretty_json(tree: JsonTree) -> Seq<char>;

/// Whether a member can be set by its key: in an object, and in null, which then becomes one.
pub open spec fn takes_members(tree: JsonTree) -> bool {
    tree is Object || tree is Null
}

/// The members of an object; null has none.
pub open spec fn members(tree: JsonTree) -> Map<Seq<char>, JsonTree> {
    match tree {
        JsonTree::Object(m) => m,
        _ => Map::empty(),
    }
}

/// The value with one of its members set.
pub open spec fn with_member(tree: JsonTree, key: Seq<char>, value: JsonTree) -> JsonTree {
    JsonTree::Object(members(tree).insert(key, value))
}

/// The value holds arrays and objects nested at most `depth` deep.
pub open spec fn nests_within(tree: JsonTree, depth: nat) -> bool
    decreases depth,
{
    match tree {
        JsonTree::Array(items) => depth > 0 && forall|i: int|
            0 <= i < items.len() ==> nests_within(#[trigger] items[i], (depth - 1) as nat),
        JsonTree::Object(m) => depth > 0 && forall|key: Seq<char>| #[trigger]
            m.contains_key(key) ==> nests_within(m[key], (depth - 1) as nat),
        _ => true,
    }
}

/// How deep `serde_json` reads nested arrays and objects.
pub open spec fn reading_depth() -> nat {
    127
}

/// The text that is found by following keys from object to object, where they lead to one.
pub open spec fn text_at(tree: JsonTree, path: Seq<Seq<char>>) -> Option<Seq<char>>
    decreases path.len(),
{
    if path.len() == 0 {
        match tree {
            JsonTree::Text(s) => Some(s),
            _ => None,
        }
    } else if tree is Object && members(tree).contains_key(path.first()) {
        text_at(members(tree)[path.first()], path.drop_first())
    } else {
        None
    }
}

/// `serde_json` reads the text, and finds the texts of `tree` at their places, and no others.
pub open spec fn keeps_texts(text: Seq<char>, tree: JsonTree) -> bool {
    parsed_json(text) matches Ok(read) && forall|path: Seq<Seq<char>>|
        #[trigger] text_at(read, path) == text_at(tree, path)
}

/// Reads a JSON text with `serde_json::from_str`. The contract names the value or the message
/// that comes out, and claims that both depend on the text alone and that a text which nests
/// deeper than `reading_depth` is refused.
#[verifier::external_body]
pub(crate) fn parse(text: &str) -> (r: Result<serde_json::Value, String>)
    ensures
        match r {
            Ok(value) => parsed_json(text@) == Ok::<JsonTree, Seq<char>>(json_tree(value))
                && nests_within(json_tree(value), reading_depth()),
            Err(message) => parsed_json(text@) == Err::<JsonTree, Seq<char>>(message@),
        },
{
    serde_json::from_str::<serde_json::Value>(text).map_err(|e| e.to_string())
}

/// Writes a JSON value with `serde_json::to_string_pretty`. The contract claims that a value is
/// always written, names the text, and claims that `serde_json` reads that text again, with the
/// same texts at the same places. It does not claim that numbers are read as the same numbers.
#[verifier::external_body]
pub(crate) fn write_pretty(value: &serde_json::Value) -> (r: Result<String, String>)
    requires
        nests_within(json_tree(*value), reading_depth()),
    ensures
        r is Ok,
        r->Ok_0@ == pretty_json(json_tree(*value)),
        keeps_texts(r->Ok_0@, json_tree(*value)),
{
    serde_json::to_string_pretty(value).map_err(|e| e.to_string())
}

/// Looks a member up with `serde_json::Value::get`. The contract claims that the member is
/// found exactly where the value is an object that has it.
#[verifier::external_body]
pub(crate) fn get<'a>(value: &'a serde_json::Value, key: &str) -> (r: Option<&'a serde_json::Value>)
    ensures
        r is Some <==> members(json_tree(*value)).contains_key(key@),
        r matches Some(member) ==> json_tree(*member) == members(json_tree(*value))[key@],
{
    value.get(key)
}

/// Looks a member up for change with `serde_json::Value::get_mut`. The contract claims that the
/// member is found exactly where the value is an object that has it, that a change made through
/// the result is a change of that member alone, and that nothing changes where none is found.
#[verifier::external_body]
pub(crate) fn get_mut<'a>(value: &'a mut serde_json::Value, key: &str) -> (r: Option<
    &'a mut serde_json::Value,
>)
    ensures
        r is Some <==> members(json_tree(*old(value))).contains_key(key@),
        r matches Some(member) ==> json_tree(*member) == members(json_tree(*old(value)))[key@],
        match r {
            Some(member) => json_tree(*final(value)) == with_member(
                json_tree(*old(value)),
                key@,
                json_tree(*final(member)),
            ),
            None => json_tree(*final(value)) == json_tree(*old(value)),
        },
{
    value.get_mut(key)
}

/// Sets a member to a text through the `IndexMut` of `serde_json::Value`. The contract claims
/// that the member is replaced or added, that null becomes an object, and that all other
/// members stay.
#[verifier::external_body]
pub(crate) fn set_text(value: &mut serde_json::Value, key: &str, text: &str)
    requires
        takes_members(json_tree(*old(value))),
    ensures
        json_tree(*final(value)) == with_member(json_tree(*old(value)), key@, JsonTree::Text(text@)),
{
    value[key] = serde_json::Value::String(text.to_string());
}

/// `serde_json::Value::as_str` gives the text of a string value, and nothing for other values.
#[verifier::external_body]
pub(crate) fn as_text<'a>(value: &'a serde_json::Value) -> (r: Option<&'a str>)
    ensures
        match json_tree(*value) {
            JsonTree::Text(s) => r is Some && r->0@ == s,
            _ => r is None,
        },
{
    value.as_str()
}

/// `serde_json::Value::is_object` tells whether a value is an object.
#[verifier::external_body]
pub(crate) fn is_object(value: &serde_json::Value) -> (b: bool)
    ensures
        b == (json_tree(*value) is Object),
{
    value.is_object()
}

/// `serde_json::Value::is_null` tells whether a value is null.
#[verifier::external_body]
pub(crate) fn is_null(value: &serde_json::Value) -> (b: bool)
    ensures
        b == (json_tree(*value) is Null),
{
    value.is_null()
}

pub(crate) proof fn lemma_with_member_nests(
    tree: JsonTree,
    key: Seq<char>,
    value: JsonTree,
    depth: nat,
)
    requires
        depth > 0,
        nests_within(tree, depth),
        nests_within(value, (depth - 1) as nat),
    ensures
        nests_within(with_member(tree, key, value), depth),
{
    let m = members(tree).insert(key, value);
    assert forall|k: Seq<char>| #[trigger] m.contains_key(k) implies nests_within(
        m[k],
        (depth - 1) as nat,
    ) by {
        if k != key {
            assert(members(tree).contains_key(k));
        }
    }
}

} // verus!
