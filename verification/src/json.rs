//! JSON as `serde_json` reads it: what a value holds, and the calls that look into it.

use serde_json::Value;
use vstd::prelude::*;

verus! {

/// A JSON value of `serde_json`, which Verus does not look into.
#[verifier::external_type_specification]
#[verifier::external_body]
pub struct ExValue(serde_json::Value);

/// What a JSON value holds.
#[verifier::ext_equal]
pub enum JsonView {
    Bool(bool),
    /// A number that is a `u64`.
    Unsigned(u64),
    Text(Seq<char>),
    Object(Map<Seq<char>, JsonView>),
    /// Null, an array, or any other number.
    Other,
}

impl JsonView {
    /// The member of an object.
    pub open spec fn member(self, key: Seq<char>) -> Option<JsonView> {
        match self {
            JsonView::Object(members) => if members.dom().contains(key) {
                Some(members[key])
            } else {
                None
            },
            _ => None,
        }
    }

    /// The member of an object, where it is a number that is a `u64`.
    pub open spec fn unsigned_member(self, key: Seq<char>) -> Option<u64> {
        match self.member(key) {
            Some(JsonView::Unsigned(number)) => Some(number),
            _ => None,
        }
    }

    /// The member of an object, where it is true or false.
    pub open spec fn bool_member(self, key: Seq<char>) -> Option<bool> {
        match self.member(key) {
            Some(JsonView::Bool(value)) => Some(value),
            _ => None,
        }
    }

    /// The member of an object, where it is a text.
    pub open spec fn text_member(self, key: Seq<char>) -> Option<Seq<char>> {
        match self.member(key) {
            Some(JsonView::Text(text)) => Some(text),
            _ => None,
        }
    }
}

/// What a JSON value of `serde_json` holds.
pub uninterp spec fn json_contents(value: serde_json::Value) -> JsonView;

/// What `serde_json::from_str` reads out of a text; nothing where the text is not JSON.
pub uninterp spec fn json_parsed(text: Seq<char>) -> Option<JsonView>;

/// What `serde_json::from_slice` reads out of bytes; where they are not JSON, what its error
/// says.
pub uninterp spec fn json_parsed_bytes(bytes: Seq<u8>) -> Result<JsonView, Seq<char>>;

/// `serde_json::from_str` reads a text as JSON. What it reads depends on the text alone.
#[verifier::external_body]
pub(crate) fn json_from_text(text: &str) -> (value: Option<Value>)
    ensures
        json_parsed(text@) == match value {
            Some(value) => Some(json_contents(value)),
            None => None,
        },
{
    serde_json::from_str::<Value>(text).ok()
}

/// `serde_json::from_slice` reads bytes as JSON, or gives an error that tells why they are
/// not. What it reads, and what the error says, depends on the bytes alone.
#[verifier::external_body]
pub(crate) fn json_from_bytes(bytes: &Vec<u8>) -> (value: Result<Value, String>)
    ensures
        json_parsed_bytes(bytes@) == match value {
            Ok(value) => Ok::<JsonView, Seq<char>>(json_contents(value)),
            Err(why) => Err(why@),
        },
{
    match serde_json::from_slice::<Value>(bytes) {
        Ok(value) => Ok(value),
        Err(error) => Err(error.to_string()),
    }
}

/// `serde_json::Value::get` with a text finds the member of an object under that text, and
/// nothing in a value that is no object.
#[verifier::external_body]
pub(crate) fn json_member<'a>(value: &'a Value, key: &str) -> (member: Option<&'a Value>)
    ensures
        match member {
            Some(member) => json_contents(*value).member(key@) == Some(json_contents(*member)),
            None => json_contents(*value).member(key@) is None,
        },
{
    value.get(key)
}

/// `serde_json::Value::as_u64` gives a number that is a `u64`, and nothing for any other
/// value.
pub assume_specification[ serde_json::Value::as_u64 ](value: &serde_json::Value) -> (found: Option<
    u64,
>)
    ensures
        found == match json_contents(*value) {
            JsonView::Unsigned(n) => Some(n),
            _ => None,
        },
;

/// `serde_json::Value::as_bool` gives a boolean, and nothing for any other value.
pub assume_specification[ serde_json::Value::as_bool ](value: &serde_json::Value) -> (found: Option<
    bool,
>)
    ensures
        found == match json_contents(*value) {
            JsonView::Bool(b) => Some(b),
            _ => None,
        },
;

/// `serde_json::Value::as_str` gives a text, and nothing for any other value.
pub assume_specification[ serde_json::Value::as_str ](value: &serde_json::Value) -> (found: Option<
    &str,
>)
    ensures
        match found {
            Some(s) => json_contents(*value) == JsonView::Text(s@),
            None => !(json_contents(*value) is Text),
        },
;

/// The member of an object, where it is a number that is a `u64`.
pub fn unsigned_member(value: &Value, key: &str) -> (number: Option<u64>)
    ensures
        number == json_contents(*value).unsigned_member(key@),
{
    match json_member(value, key) {
        Some(member) => member.as_u64(),
        None => None,
    }
}

/// The member of an object, where it is true or false.
pub fn bool_member(value: &Value, key: &str) -> (yes: Option<bool>)
    ensures
        yes == json_contents(*value).bool_member(key@),
{
    match json_member(value, key) {
        Some(member) => member.as_bool(),
        None => None,
    }
}

/// The member of an object, where it is a text.
pub fn text_member(value: &Value, key: &str) -> (text: Option<String>)
    ensures
        match text {
            Some(text) => json_contents(*value).text_member(key@) == Some(text@),
            None => json_contents(*value).text_member(key@) is None,
        },
{
    match json_member(value, key) {
        Some(member) => match member.as_str() {
            Some(text) => Some(text.to_string()),
            None => None,
        },
        None => None,
    }
}

/// A member is given as what it is: a number as a number, a truth as a truth and a text as a
/// text, each unchanged, and as nothing else.
pub proof fn law_members_are_given_as_they_are(
    value: JsonView,
    key: Seq<char>,
    number: u64,
    yes: bool,
    text: Seq<char>,
)
    ensures
        value.unsigned_member(key) == Some(number) <==> value.member(key) == Some(
            JsonView::Unsigned(number),
        ),
        value.bool_member(key) == Some(yes) <==> value.member(key) == Some(JsonView::Bool(yes)),
        value.text_member(key) == Some(text) <==> value.member(key) == Some(JsonView::Text(text)),
        !(value is Object) ==> value.member(key) is None,
        value matches JsonView::Object(members) ==> (value.member(key) is Some
            <==> members.dom().contains(key)) && (members.dom().contains(key) ==> value.member(key)
            == Some(members[key])),
{
}

} // verus!
