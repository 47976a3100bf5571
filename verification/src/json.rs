//! JSON values handed to storage and to the request digest.
//!
//! The values themselves, and their wire form, belong to `serde_json`; this
//! module names what they hold so that contracts can speak of it. Object
//! members keep the order in which they were given.
use vstd::prelude::*;
use vstd::utf8::*;
use crate::text::{decimal, optional_text, text_of, Text};

verus! {

/// A JSON value as `serde_json` holds it.
#[verifier::external_type_specification]
#[verifier::external_body]
pub struct ExJsonValue(serde_json::Value);

/// What a JSON value holds; a number is held by its decimal form.
#[verifier::ext_equal]
pub enum Json {
    Null,
    Bool(bool),
    Number(Text),
    Text(Text),
    List(Seq<Json>),
    Object(Seq<(Text, Json)>),
}

/// The content of a `serde_json` value.
pub uninterp spec fn json_content(value: serde_json::Value) -> Json;

/// The compact UTF-8 form in which `serde_json` writes a value, or the message
/// with which it declines.
pub uninterp spec fn json_wire(content: Json) -> Result<Seq<u8>, Text>;

/// What `serde_json` reads from a text, where the text is JSON.
pub uninterp spec fn json_parsed(text: Text) -> Option<Json>;

/// The compact text in which `serde_json` displays a value.
pub uninterp spec fn json_text(content: Json) -> Text;

/// The indented text in which `serde_json` writes a value, or the message with
/// which it declines.
pub uninterp spec fn json_pretty(content: Json) -> Result<Text, Text>;

/// How deeply values may be nested that `serde_json` reads.
pub const READABLE_NESTING: u8 = 127;

/// The key of an object that `serde_json` reads as the JSON inside a text: where it
/// comes first, the object is not read back as it was written.
pub const RAW_VALUE_KEY: &'static str = "$serde_json::private::RawValue";

/// Whether the form of a number is that of an integer of at most 64 bits.
pub open spec fn is_integer_form(form: Text) -> bool {
    exists|n: int| i64::MIN <= n <= u64::MAX && form == #[trigger] decimal(n)
}

/// Whether a value is nested no deeper than so many levels, holds no number but
/// integers of at most 64 bits, and no object that starts with [`RAW_VALUE_KEY`].
pub open spec fn nests_within(content: Json, levels: nat) -> bool
    decreases levels,
{
    match content {
        Json::Null => true,
        Json::Bool(_) => true,
        Json::Number(form) => is_integer_form(form),
        Json::Text(_) => true,
        Json::List(items) => {
            &&& levels > 0
            &&& forall|i: int|
                0 <= i < items.len() ==> nests_within(#[trigger] items[i], (levels - 1) as nat)
        },
        Json::Object(members) => {
            &&& levels > 0
            &&& members.len() > 0 ==> members[0].0 != RAW_VALUE_KEY@
            &&& forall|i: int|
                0 <= i < members.len() ==> nests_within(
                    (#[trigger] members[i]).1,
                    (levels - 1) as nat,
                )
        },
    }
}

/// Whether a value is one that `serde_json` reads back as it was written: it is
/// nested no deeper than that allows, its numbers are integers of at most 64 bits,
/// and none of its objects starts with [`RAW_VALUE_KEY`]. Another number may be
/// read as its neighbour, and such an object as what its text holds, or not at all.
pub open spec fn reads_back(content: Json) -> bool {
    nests_within(content, READABLE_NESTING as nat)
}

/// Whether bytes are the wire form of a value, and are read as that value.
pub open spec fn is_written(content: Json, wire: Seq<u8>) -> bool {
    &&& json_wire(content) == Ok::<Seq<u8>, Text>(wire)
    &&& json_parsed(decode_utf8(wire)) == Some(content)
}

/// A short key is not [`RAW_VALUE_KEY`].
pub(crate) proof fn lemma_short_keys_are_plain(key: Text)
    requires
        key.len() < 30,
    ensures
        key != RAW_VALUE_KEY@,
{
    reveal_strlit("$serde_json::private::RawValue");
}

/// No two members of an object share a key.
pub open spec fn keys_are_distinct(members: Seq<(String, serde_json::Value)>) -> bool {
    forall|i: int, j: int|
        0 <= i < j < members.len() ==> (#[trigger] members[i]).0@ != (#[trigger] members[j]).0@
}

/// The contents of a list of values.
pub open spec fn list_content(items: Seq<serde_json::Value>) -> Seq<Json> {
    Seq::new(items.len(), |i: int| json_content(items[i]))
}

/// The contents of a list of members.
pub open spec fn members_content(members: Seq<(String, serde_json::Value)>) -> Seq<(Text, Json)> {
    Seq::new(members.len(), |i: int| (members[i].0@, json_content(members[i].1)))
}

/// Text, or null where there is none.
pub open spec fn nullable(text: Option<Text>) -> Json {
    match text {
        Some(text) => Json::Text(text),
        None => Json::Null,
    }
}

/// `serde_json::Value::Null` is the JSON null.
#[verifier::external_body]
fn null_value() -> (value: serde_json::Value)
    ensures
        json_content(value) == Json::Null,
{
    serde_json::Value::Null
}

/// `serde_json::Value::String` holds the text it is given.
#[verifier::external_body]
fn text_value(text: String) -> (value: serde_json::Value)
    ensures
        json_content(value) == Json::Text(text@),
{
    serde_json::Value::String(text)
}

/// `serde_json::Value::Array` holds the items it is given, in order.
#[verifier::external_body]
pub(crate) fn list_value(items: Vec<serde_json::Value>) -> (value: serde_json::Value)
    ensures
        json_content(value) == Json::List(list_content(items@)),
{
    serde_json::Value::Array(items)
}

/// `serde_json::Value::from_iter` collects members with distinct keys into an
/// object that keeps their order, as the `preserve_order` feature has it.
#[verifier::external_body]
pub(crate) fn object_value(members: Vec<(String, serde_json::Value)>) -> (value: serde_json::Value)
    requires
        keys_are_distinct(members@),
    ensures
        json_content(value) == Json::Object(members_content(members@)),
{
    serde_json::Value::from_iter(members)
}

/// `serde_json::to_vec` writes a value in its compact form, as UTF-8. The form
/// depends on what the value holds alone; when it declines, the message is its
/// own. `serde_json::from_str` reads back what it wrote of a value that
/// [`reads_back`] admits; of another nothing is said. Writing recurses into a value,
/// so the stack bounds how deeply it may be nested.
#[verifier::external_body]
pub(crate) fn wire_bytes(value: &serde_json::Value) -> (wire: Result<Vec<u8>, String>)
    ensures
        match wire {
            Ok(bytes) => {
                &&& json_wire(json_content(*value)) == Ok::<Seq<u8>, Text>(bytes@)
                &&& reads_back(json_content(*value)) ==> json_parsed(decode_utf8(bytes@)) == Some(
                    json_content(*value),
                )
            },
            Err(message) => json_wire(json_content(*value)) == Err::<Seq<u8>, Text>(message@),
        },
{
    serde_json::to_vec(value).map_err(|error| error.to_string())
}

/// `serde_json::from_str` reads a value from text, where the text is JSON. What
/// it reads depends on the text alone.
#[verifier::external_body]
pub(crate) fn parse_value(text: &str) -> (value: Option<serde_json::Value>)
    ensures
        match value {
            Some(value) => json_parsed(text@) == Some(json_content(value)),
            None => json_parsed(text@) is None,
        },
{
    serde_json::from_str(text).ok()
}

/// `serde_json::to_string_pretty` writes a value as indented JSON, which depends
/// on what it holds alone; when it declines, the message is its own.
/// `serde_json::from_str` reads back what it wrote of a value that [`reads_back`]
/// admits; of another nothing is said. Writing recurses into a value, so the stack
/// bounds how deeply it may be nested.
#[verifier::external_body]
pub(crate) fn pretty_text(value: &serde_json::Value) -> (text: Result<String, String>)
    ensures
        match text {
            Ok(text) => {
                &&& json_pretty(json_content(*value)) == Ok::<Text, Text>(text@)
                &&& reads_back(json_content(*value)) ==> json_parsed(text@) == Some(
                    json_content(*value),
                )
            },
            Err(message) => json_pretty(json_content(*value)) == Err::<Text, Text>(message@),
        },
{
    serde_json::to_string_pretty(value).map_err(|error| error.to_string())
}

/// `serde_json::Value` displays itself as compact JSON, which depends on what it
/// holds alone. `serde_json::from_str` reads back what is displayed of a value that
/// [`reads_back`] admits; of another nothing is said. Displaying recurses into a
/// value, so the stack bounds how deeply it may be nested.
#[verifier::external_body]
pub(crate) fn value_text(value: &serde_json::Value) -> (text: String)
    ensures
        text@ == json_text(json_content(*value)),
        reads_back(json_content(*value)) ==> json_parsed(text@) == Some(json_content(*value)),
{
    value.to_string()
}

/// A member with a text value.
pub(crate) fn text_member(key: &str, text: &str) -> (member: (String, serde_json::Value))
    ensures
        member.0@ == key@,
        json_content(member.1) == Json::Text(text@),
{
    (text_of(key), text_value(text_of(text)))
}

/// A member with a text value, or null where there is none.
pub(crate) fn nullable_member(key: &str, text: &Option<String>) -> (member: (
    String,
    serde_json::Value,
))
    ensures
        member.0@ == key@,
        json_content(member.1) == nullable(optional_text(*text)),
{
    match text {
        Some(text) => (text_of(key), text_value(text_of(text.as_str()))),
        None => (text_of(key), null_value()),
    }
}

} // verus!
