//! JSON documents, as far as their string members go.
//!
//! What a JSON object holds is seen here as a map from its keys: to the text of a member that is a
//! string, and to nothing for a member of any other kind.
use vstd::prelude::*;

verus! {

/// A JSON value.
#[verifier::external_type_specification]
#[verifier::external_body]
pub struct ExValue(serde_json::Value);

/// A JSON object.
#[verifier::external_type_specification]
#[verifier::external_body]
#[verifier::reject_recursive_types(K)]
#[verifier::reject_recursive_types(V)]
pub struct ExObject<K, V>(serde_json::Map<K, V>);

/// What is wrong with a text that is not JSON.
#[verifier::external_type_specification]
#[verifier::external_body]
pub struct ExJsonError(serde_json::Error);

/// The members of a JSON value; none where the value is no object.
pub uninterp spec fn value_members(value: serde_json::Value) -> Map<Seq<char>, Option<Seq<char>>>;

/// The members of a JSON object.
pub uninterp spec fn object_members(
    object: serde_json::Map<String, serde_json::Value>,
) -> Map<Seq<char>, Option<Seq<char>>>;

/// What a text is parsed to: the value that it denotes, or an error that says what is wrong with
/// it.
pub uninterp spec fn parsed_json(text: Seq<char>) -> Result<serde_json::Value, serde_json::Error>;

/// The members of the value that a text denotes, or nothing where the text is not JSON.
pub open spec fn json_members(text: Seq<char>) -> Option<Map<Seq<char>, Option<Seq<char>>>> {
    match parsed_json(text) {
        Ok(value) => Some(value_members(value)),
        Err(_) => None,
    }
}

/// The text of an object whose members are all strings.
pub uninterp spec fn object_text(members: Map<Seq<char>, Option<Seq<char>>>) -> Seq<char>;

/// The string that a member holds, if it is there and is a string.
pub open spec fn string_at(
    members: Map<Seq<char>, Option<Seq<char>>>,
    key: Seq<char>,
) -> Option<Seq<char>> {
    if members.contains_key(key) {
        members[key]
    } else {
        None
    }
}

/// No members at all.
pub open spec fn no_members() -> Map<Seq<char>, Option<Seq<char>>> {
    Map::empty()
}

/// Whether all members are strings.
pub open spec fn all_strings(members: Map<Seq<char>, Option<Seq<char>>>) -> bool {
    forall|key: Seq<char>| members.contains_key(key) ==> #[trigger] members[key] is Some
}

/// `serde_json::from_str`: what it gives, a value or an error, depends on the text alone. The empty
/// text is not JSON.
#[verifier::external_body]
pub(crate) fn parse(text: &str) -> (value: Result<serde_json::Value, serde_json::Error>)
    ensures
        value == parsed_json(text@),
        value is Ok ==> text@.len() > 0,
{
    serde_json::from_str(text)
}

/// Indexing a `serde_json::Value` by a key, and `Value::as_str`: the text of the member of that
/// name, and nothing where the value is no object, has no such member, or has one that is no
/// string.
#[verifier::external_body]
pub(crate) fn string_member(value: &serde_json::Value, key: &str) -> (text: Option<String>)
    ensures
        text is Some <==> string_at(value_members(*value), key@) is Some,
        text matches Some(t) ==> string_at(value_members(*value), key@) == Some(t@),
{
    value[key].as_str().map(str::to_owned)
}

/// `serde_json::Map::new`: an object without members.
#[verifier::external_body]
pub(crate) fn empty_object() -> (object: serde_json::Map<String, serde_json::Value>)
    ensures
        object_members(object) == no_members(),
{
    serde_json::Map::new()
}

/// `serde_json::Map::insert`, of a string: the member is there afterwards, and the others are as
/// they were.
#[verifier::external_body]
pub(crate) fn insert_string(
    object: &mut serde_json::Map<String, serde_json::Value>,
    key: String,
    value: String,
)
    ensures
        object_members(*final(object)) == object_members(*old(object)).insert(key@, Some(value@)),
{
    object.insert(key, serde_json::Value::String(value));
}

/// Displaying a `serde_json::Value` that is an object whose members are all strings: the text
/// depends on the members alone, and parsing it gives them back.
#[verifier::external_body]
pub(crate) fn render(object: serde_json::Map<String, serde_json::Value>) -> (text: String)
    requires
        all_strings(object_members(object)),
    ensures
        text@ == object_text(object_members(object)),
        json_members(text@) == Some(object_members(object)),
{
    serde_json::Value::Object(object).to_string()
}

} // verus!
