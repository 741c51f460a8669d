//! JSON values as a tree of the library's own, read and printed by
//! `serde_json`.
//!
//! Reading and printing JSON text is `serde_json`'s work; this module only
//! states what the library relies on and gives the tree the accessors that
//! the decoders are written with.

use vstd::prelude::*;

verus! {

#[verifier::external_type_specification]
#[verifier::external_body]
pub struct ExValue(serde_json::Value);

#[verifier::external_type_specification]
#[verifier::external_body]
pub struct ExNumber(serde_json::Number);

/// A JSON value. An object keeps its members as a list of pairs, in the order
/// in which `serde_json` hands them out.
#[derive(Debug)]
pub enum Json {
    Null,
    Bool(bool),
    Number(serde_json::Number),
    Text(String),
    Array(Vec<Json>),
    Object(Vec<(String, Json)>),
}

/// What `serde_json::from_str` makes of a text: the value it reads, or the
/// message of the error it reports.
pub uninterp spec fn json_decoding(text: Seq<char>) -> Result<Json, Seq<char>>;

/// The tree that a `serde_json::Value` holds.
pub uninterp spec fn json_tree(value: serde_json::Value) -> Json;

/// The `serde_json::Value` that holds a given tree.
pub uninterp spec fn json_value(tree: Json) -> serde_json::Value;

/// What `serde_json::to_string_pretty` prints for a value, where it prints
/// anything.
pub uninterp spec fn value_pretty_text(value: serde_json::Value) -> Option<Seq<char>>;

/// What `serde_json::to_string` prints for a value, where it prints anything.
pub uninterp spec fn value_compact_text(value: serde_json::Value) -> Option<Seq<char>>;

/// The indented text of a tree.
pub open spec fn json_pretty_text(tree: Json) -> Option<Seq<char>> {
    value_pretty_text(json_value(tree))
}

/// The one-line text of a tree.
pub open spec fn json_compact_text(tree: Json) -> Option<Seq<char>> {
    value_compact_text(json_value(tree))
}

/// Calls `serde_json::from_str` for a `serde_json::Value`. The contract
/// claims only that the outcome depends on the text alone: the value read,
/// taken as a tree, or the error's message, is what `json_decoding` names.
#[verifier::external_body]
fn parse_value(text: &str) -> (r: Result<serde_json::Value, String>)
    ensures
        match r {
            Ok(value) => json_decoding(text@) == Ok::<Json, Seq<char>>(json_tree(value)),
            Err(message) => json_decoding(text@) == Err::<Json, Seq<char>>(message@),
        },
{
    match serde_json::from_str::<serde_json::Value>(text) {
        Ok(value) => Ok(value),
        Err(error) => Err(error.to_string()),
    }
}

/// Takes a `serde_json::Value` apart, variant by variant, moving what each
/// holds into the same variant of `Json`. The contract names the result.
#[verifier::external_body]
fn json_of_value(value: serde_json::Value) -> (r: Json)
    ensures
        r == json_tree(value),
{
    match value {
        serde_json::Value::Null => Json::Null,
        serde_json::Value::Bool(b) => Json::Bool(b),
        serde_json::Value::Number(n) => Json::Number(n),
        serde_json::Value::String(s) => Json::Text(s),
        serde_json::Value::Array(items) => Json::Array(
            items.into_iter().map(json_of_value).collect(),
        ),
        serde_json::Value::Object(members) => Json::Object(
            members.into_iter().map(|(k, v)| (k, json_of_value(v))).collect(),
        ),
    }
}

/// Builds the `serde_json::Value` of a tree, variant by variant. The
/// contract names the result.
#[verifier::external_body]
fn value_of_json(tree: &Json) -> (r: serde_json::Value)
    ensures
        r == json_value(*tree),
{
    match tree {
        Json::Null => serde_json::Value::Null,
        Json::Bool(b) => serde_json::Value::Bool(*b),
        Json::Number(n) => serde_json::Value::Number(n.clone()),
        Json::Text(s) => serde_json::Value::String(s.clone()),
        Json::Array(items) => serde_json::Value::Array(items.iter().map(value_of_json).collect()),
        Json::Object(members) => serde_json::Value::Object(
            members.iter().map(|(k, v)| (k.clone(), value_of_json(v))).collect(),
        ),
    }
}

/// Calls `serde_json::to_string_pretty`; `None` stands for its error. The
/// contract names the result.
#[verifier::external_body]
fn pretty_value(value: &serde_json::Value) -> (r: Option<String>)
    ensures
        r.deep_view() == value_pretty_text(*value),
{
    serde_json::to_string_pretty(value).ok()
}

/// Calls `serde_json::to_string`; `None` stands for its error. The contract
/// names the result.
#[verifier::external_body]
fn compact_value(value: &serde_json::Value) -> (r: Option<String>)
    ensures
        r.deep_view() == value_compact_text(*value),
{
    serde_json::to_string(value).ok()
}

/// The value of the first member of an object that is named `key`.
pub open spec fn member(members: Seq<(String, Json)>, key: Seq<char>) -> Option<Json>
    decreases members.len(),
{
    if members.len() == 0 {
        None
    } else if members[0].0@ == key {
        Some(members[0].1)
    } else {
        member(members.skip(1), key)
    }
}

/// Looks up the first member of an object that is named `key`.
pub fn find_member<'a>(members: &'a Vec<(String, Json)>, key: &str) -> (r: Option<&'a Json>)
    ensures
        match r {
            Some(value) => member(members@, key@) == Some(*value),
            None => member(members@, key@) is None,
        },
{
    let wanted = key.to_owned();
    let mut i: usize = 0;
    proof {
        assert(members@.skip(0) =~= members@);
    }
    while i < members.len()
        invariant
            i <= members.len(),
            wanted@ == key@,
            member(members@, key@) == member(members@.skip(i as int), key@),
        decreases members.len() - i,
    {
        if members[i].0 == wanted {
            return Some(&members[i].1);
        }
        proof {
            assert(members@.skip(i as int).skip(1) =~= members@.skip(i + 1));
        }
        i += 1;
    }
    None
}

/// The string under a name, where the member is there and is a string.
pub open spec fn text_at(members: Seq<(String, Json)>, key: Seq<char>) -> Option<Seq<char>> {
    match member(members, key) {
        Some(Json::Text(text)) => Some(text@),
        _ => None,
    }
}

/// The boolean under a name, where the member is there and is a boolean.
pub open spec fn flag_at(members: Seq<(String, Json)>, key: Seq<char>) -> Option<bool> {
    match member(members, key) {
        Some(Json::Bool(flag)) => Some(flag),
        _ => None,
    }
}

/// The elements under a name, where the member is there and is an array.
pub open spec fn array_at(members: Seq<(String, Json)>, key: Seq<char>) -> Option<Seq<Json>> {
    match member(members, key) {
        Some(Json::Array(items)) => Some(items@),
        _ => None,
    }
}

/// The members under a name, where the member is there and is an object.
pub open spec fn object_at(members: Seq<(String, Json)>, key: Seq<char>) -> Option<
    Seq<(String, Json)>,
> {
    match member(members, key) {
        Some(Json::Object(inner)) => Some(inner@),
        _ => None,
    }
}

/// The string under a name, where the member is there and is a string.
pub fn get_text(members: &Vec<(String, Json)>, key: &str) -> (r: Option<String>)
    ensures
        r.deep_view() == text_at(members@, key@),
{
    match find_member(members, key) {
        Some(Json::Text(text)) => Some(text.clone()),
        _ => None,
    }
}

/// The boolean under a name, where the member is there and is a boolean.
pub fn get_flag(members: &Vec<(String, Json)>, key: &str) -> (r: Option<bool>)
    ensures
        r == flag_at(members@, key@),
{
    match find_member(members, key) {
        Some(Json::Bool(flag)) => Some(*flag),
        _ => None,
    }
}

/// The elements under a name, where the member is there and is an array.
pub fn get_array<'a>(members: &'a Vec<(String, Json)>, key: &str) -> (r: Option<&'a Vec<Json>>)
    ensures
        match r {
            Some(items) => array_at(members@, key@) == Some(items@),
            None => array_at(members@, key@) is None,
        },
{
    match find_member(members, key) {
        Some(Json::Array(items)) => Some(items),
        _ => None,
    }
}

/// The members under a name, where the member is there and is an object.
pub fn get_object<'a>(members: &'a Vec<(String, Json)>, key: &str) -> (r: Option<
    &'a Vec<(String, Json)>,
>)
    ensures
        match r {
            Some(inner) => object_at(members@, key@) == Some(inner@),
            None => object_at(members@, key@) is None,
        },
{
    match find_member(members, key) {
        Some(Json::Object(inner)) => Some(inner),
        _ => None,
    }
}

/// The number as an unsigned integer, where it is one that fits in 64 bits.
pub uninterp spec fn number_u64(number: serde_json::Number) -> Option<u64>;

/// Calls `serde_json::Number::as_u64`. The contract names the result.
#[verifier::external_body]
fn number_as_u64(number: &serde_json::Number) -> (r: Option<u64>)
    ensures
        r == number_u64(*number),
{
    number.as_u64()
}

/// The unsigned integer under a name, where the member is there and is one.
pub open spec fn count_at(members: Seq<(String, Json)>, key: Seq<char>) -> Option<u64> {
    match member(members, key) {
        Some(Json::Number(number)) => number_u64(number),
        _ => None,
    }
}

/// The unsigned integer under a name, where the member is there and is one.
pub fn get_count(members: &Vec<(String, Json)>, key: &str) -> (r: Option<u64>)
    ensures
        r == count_at(members@, key@),
{
    match find_member(members, key) {
        Some(Json::Number(number)) => number_as_u64(number),
        _ => None,
    }
}

/// Reads a JSON text into a tree, or gives the reader's error message.
pub fn decode_json(text: &str) -> (r: Result<Json, String>)
    ensures
        match r {
            Ok(tree) => json_decoding(text@) == Ok::<Json, Seq<char>>(tree),
            Err(message) => json_decoding(text@) == Err::<Json, Seq<char>>(message@),
        },
{
    match parse_value(text) {
        Ok(value) => Ok(json_of_value(value)),
        Err(message) => Err(message),
    }
}

/// The indented text of a tree, where `serde_json` prints one.
pub fn pretty_json(tree: &Json) -> (r: Option<String>)
    ensures
        r.deep_view() == json_pretty_text(*tree),
{
    let value = value_of_json(tree);
    pretty_value(&value)
}

/// The one-line text of a tree, where `serde_json` prints one.
pub fn compact_json(tree: &Json) -> (r: Option<String>)
    ensures
        r.deep_view() == json_compact_text(*tree),
{
    let value = value_of_json(tree);
    compact_value(&value)
}

} // verus!
