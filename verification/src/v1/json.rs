//! JSON documents, as `serde_json` reads and holds them.
//!
//! Reading JSON text is `serde_json`'s work. This module gives the documents
//! it produces a mathematical content, [`JsonModel`], and states in terms of it
//! what the calls used by this library return. Those statements are taken on
//! trust; the code that walks a document is verified against them.
use vstd::prelude::*;
use vstd::string::StringExecFns;
use crate::v1::error::ApiError;

verus! {

/// The content of a JSON document.
pub enum JsonModel {
    Null,
    Bool(bool),
    /// A number written without fraction or exponent, between `i64::MIN` and
    /// `u64::MAX`.
    Integer(int),
    /// Any other number, by the bit pattern of its double-precision value.
    Float(u64),
    Text(Seq<char>),
    Array(Seq<JsonModel>),
    /// The members of an object, by key.
    Object(Map<Seq<char>, JsonModel>),
}

impl JsonModel {
    /// The member `key` of an object; `None` where the document is no object
    /// or has no such member.
    pub open spec fn member(self, key: Seq<char>) -> Option<JsonModel> {
        match self {
            JsonModel::Object(members) => if members.contains_key(key) {
                Some(members[key])
            } else {
                None
            },
            _ => None,
        }
    }

    /// As `member`, but a member that is `null` counts as absent.
    pub open spec fn optional_member(self, key: Seq<char>) -> Option<JsonModel> {
        match self.member(key) {
            Some(JsonModel::Null) => None,
            found => found,
        }
    }
}

/// A parsed JSON document of `serde_json`. Its inside is not visible here:
/// see [`json_view`].
#[verifier::external_type_specification]
#[verifier::external_body]
pub struct ExValue(serde_json::Value);

/// The content of a parsed document.
pub uninterp spec fn json_view(value: serde_json::Value) -> JsonModel;

/// What `serde_json` makes of a text: the content of the document it reads,
/// or the message of the error it reports.
pub uninterp spec fn json_parse(text: Seq<char>) -> Result<JsonModel, Seq<char>>;

/// The indented text that `serde_json` writes for a document.
pub uninterp spec fn json_pretty(document: JsonModel) -> Seq<char>;

/// Calls `serde_json::from_str` to read `text` as one JSON document. The
/// contract only names the outcome: the document read, or the text that the
/// error displays, both as `json_parse` of the characters.
#[verifier::external_body]
pub(crate) fn parse_json(text: &str) -> (r: Result<serde_json::Value, String>)
    ensures
        match r {
            Ok(value) => json_parse(text@) == Ok::<JsonModel, Seq<char>>(json_view(value)),
            Err(message) => json_parse(text@) == Err::<JsonModel, Seq<char>>(message@),
        },
{
    match serde_json::from_str::<serde_json::Value>(text) {
        Ok(value) => Ok(value),
        Err(error) => Err(error.to_string()),
    }
}

/// Calls `serde_json::to_string_pretty` on a document. Writing a parsed
/// document cannot fail: its keys are strings, a number that is not finite
/// is written as `null`, and the text goes to memory. So there is a text, and
/// it is the one named `json_pretty`.
#[verifier::external_body]
pub(crate) fn pretty_json(value: &serde_json::Value) -> (r: Option<String>)
    ensures
        r is Some,
        r matches Some(text) ==> text@ == json_pretty(json_view(*value)),
{
    serde_json::to_string_pretty(value).ok()
}

/// Calls `serde_json::Value::get` with a string key: the member of that name
/// where the document is an object that has one, else nothing.
#[verifier::external_body]
pub(crate) fn json_get<'a>(value: &'a serde_json::Value, key: &str) -> (r: Option<
    &'a serde_json::Value,
>)
    ensures
        match json_view(*value).member(key@) {
            Some(content) => r matches Some(found) && json_view(*found) == content,
            None => r is None,
        },
{
    value.get(key)
}

/// `Value::as_str`: the text of a string document, nothing for any other.
pub assume_specification[ serde_json::Value::as_str ](value: &serde_json::Value) -> (r: Option<
    &str,
>)
    ensures
        match json_view(*value) {
            JsonModel::Text(content) => r matches Some(text) && text@ == content,
            _ => r is None,
        },
;

/// `Value::as_u64`: the value of an integer that is not negative, nothing for
/// any other document.
pub assume_specification[ serde_json::Value::as_u64 ](value: &serde_json::Value) -> (r: Option<
    u64,
>)
    ensures
        match json_view(*value) {
            JsonModel::Integer(n) => if n >= 0 {
                r matches Some(x) && x == n
            } else {
                r is None
            },
            _ => r is None,
        },
;

/// `Value::as_array`: the elements of an array, in order, nothing for any
/// other document.
pub assume_specification[ serde_json::Value::as_array ](value: &serde_json::Value) -> (r: Option<
    &Vec<serde_json::Value>,
>)
    ensures
        match json_view(*value) {
            JsonModel::Array(content) => r matches Some(items) && items@.len() == content.len()
                && forall|i: int|
                0 <= i < content.len() ==> json_view(#[trigger] items@[i]) == content[i],
            _ => r is None,
        },
;

/// `Value::as_bool`: the value of `true` or `false`, nothing for any other
/// document.
pub assume_specification[ serde_json::Value::as_bool ](value: &serde_json::Value) -> (r: Option<
    bool,
>)
    ensures
        match json_view(*value) {
            JsonModel::Bool(b) => r == Some(b),
            _ => r is None,
        },
;

/// `Value::is_object`: whether the document is an object.
pub assume_specification[ serde_json::Value::is_object ](value: &serde_json::Value) -> (r: bool)
    ensures
        r == (json_view(*value) is Object),
;

/// `Value::is_null`: whether the document is `null`.
pub assume_specification[ serde_json::Value::is_null ](value: &serde_json::Value) -> (r: bool)
    ensures
        r == (json_view(*value) is Null),
;

/// The message for a member that a document lacks.
pub open spec fn missing_field(key: Seq<char>) -> Seq<char> {
    "missing field `"@ + key + "`"@
}

/// The message for a member whose value is not of the kind asked for.
pub open spec fn invalid_field(key: Seq<char>) -> Seq<char> {
    "invalid value for field `"@ + key + "`"@
}

/// The message for a document that should be an object and is none.
pub open spec fn not_an_object() -> Seq<char> {
    "invalid type: expected a JSON object"@
}

/// The error for a document that should be an object and is none.
pub fn not_object() -> (error: ApiError)
    ensures
        error.message@ == not_an_object(),
{
    ApiError { message: "invalid type: expected a JSON object".to_string() }
}

/// The error for a member that a document lacks.
pub fn missing(key: &str) -> (error: ApiError)
    ensures
        error.message@ == missing_field(key@),
{
    ApiError { message: String::from_str("missing field `").concat(key).concat("`") }
}

/// The error for a member whose value is not of the kind asked for.
pub fn invalid(key: &str) -> (error: ApiError)
    ensures
        error.message@ == invalid_field(key@),
{
    ApiError { message: String::from_str("invalid value for field `").concat(key).concat("`") }
}

/// Whether a decoder's result is the one expected: the value whose view is the
/// expected model, or the error with the expected message.
pub open spec fn decoded<T: View>(r: Result<T, ApiError>, expected: Result<T::V, Seq<char>>) -> bool {
    match expected {
        Ok(model) => r matches Ok(value) && value@ == model,
        Err(message) => r matches Err(error) && error.message@ == message,
    }
}

/// The text held by the member `key`.
pub open spec fn text_member(document: JsonModel, key: Seq<char>) -> Result<Seq<char>, Seq<char>> {
    match document.member(key) {
        None => Err(missing_field(key)),
        Some(JsonModel::Text(content)) => Ok(content),
        Some(_) => Err(invalid_field(key)),
    }
}

/// The text held by the member `key`, where there is such a member and it is
/// not `null`.
pub open spec fn optional_text_member(document: JsonModel, key: Seq<char>) -> Result<
    Option<Seq<char>>,
    Seq<char>,
> {
    match document.optional_member(key) {
        None => Ok(None),
        Some(JsonModel::Text(content)) => Ok(Some(content)),
        Some(_) => Err(invalid_field(key)),
    }
}

/// The number held by the member `key`, which must be an integer from 0 to
/// `u32::MAX`.
pub open spec fn u32_member(document: JsonModel, key: Seq<char>) -> Result<u32, Seq<char>> {
    match document.member(key) {
        None => Err(missing_field(key)),
        Some(JsonModel::Integer(n)) => if 0 <= n <= u32::MAX {
            Ok(n as u32)
        } else {
            Err(invalid_field(key))
        },
        Some(_) => Err(invalid_field(key)),
    }
}

/// The truth value held by the member `key`.
pub open spec fn bool_member(document: JsonModel, key: Seq<char>) -> Result<bool, Seq<char>> {
    match document.member(key) {
        None => Err(missing_field(key)),
        Some(JsonModel::Bool(b)) => Ok(b),
        Some(_) => Err(invalid_field(key)),
    }
}

/// The object held by the member `key`.
pub open spec fn object_member(document: JsonModel, key: Seq<char>) -> Result<JsonModel, Seq<char>> {
    match document.member(key) {
        None => Err(missing_field(key)),
        Some(inner) => if inner is Object {
            Ok(inner)
        } else {
            Err(invalid_field(key))
        },
    }
}

/// The elements of the array held by the member `key`.
pub open spec fn array_member(document: JsonModel, key: Seq<char>) -> Result<
    Seq<JsonModel>,
    Seq<char>,
> {
    match document.member(key) {
        None => Err(missing_field(key)),
        Some(JsonModel::Array(items)) => Ok(items),
        Some(_) => Err(invalid_field(key)),
    }
}

/// The contents of a list of parsed documents.
pub open spec fn json_views(items: Seq<serde_json::Value>) -> Seq<JsonModel> {
    items.map_values(|item: serde_json::Value| json_view(item))
}

/// Looks up the member `key`, taking a `null` for an absent member.
pub fn get_optional<'a>(value: &'a serde_json::Value, key: &str) -> (r: Option<
    &'a serde_json::Value,
>)
    ensures
        match json_view(*value).optional_member(key@) {
            Some(content) => r matches Some(found) && json_view(*found) == content,
            None => r is None,
        },
{
    match json_get(value, key) {
        Some(found) => if found.is_null() {
            None
        } else {
            Some(found)
        },
        None => None,
    }
}

/// Reads the text held by the member `key`.
pub fn read_text(value: &serde_json::Value, key: &str) -> (r: Result<String, ApiError>)
    ensures
        decoded(r, text_member(json_view(*value), key@)),
{
    match json_get(value, key) {
        None => Err(missing(key)),
        Some(found) => match found.as_str() {
            Some(text) => Ok(text.to_owned()),
            None => Err(invalid(key)),
        },
    }
}

/// Reads the text held by the member `key`, if the document has that member.
pub fn read_optional_text(value: &serde_json::Value, key: &str) -> (r: Result<
    Option<String>,
    ApiError,
>)
    ensures
        match optional_text_member(json_view(*value), key@) {
            Ok(Some(content)) => r matches Ok(Some(text)) && text@ == content,
            Ok(None) => r matches Ok(None),
            Err(message) => r matches Err(error) && error.message@ == message,
        },
{
    match get_optional(value, key) {
        None => Ok(None),
        Some(found) => match found.as_str() {
            Some(text) => Ok(Some(text.to_owned())),
            None => Err(invalid(key)),
        },
    }
}

/// Reads the truth value held by the member `key`.
pub fn read_bool(value: &serde_json::Value, key: &str) -> (r: Result<bool, ApiError>)
    ensures
        decoded(r, bool_member(json_view(*value), key@)),
{
    match json_get(value, key) {
        None => Err(missing(key)),
        Some(found) => match found.as_bool() {
            Some(b) => Ok(b),
            None => Err(invalid(key)),
        },
    }
}

/// Reads the object held by the member `key`.
pub fn read_object<'a>(value: &'a serde_json::Value, key: &str) -> (r: Result<
    &'a serde_json::Value,
    ApiError,
>)
    ensures
        match object_member(json_view(*value), key@) {
            Ok(inner) => r matches Ok(found) && json_view(*found) == inner,
            Err(message) => r matches Err(error) && error.message@ == message,
        },
{
    match json_get(value, key) {
        None => Err(missing(key)),
        Some(found) => if found.is_object() {
            Ok(found)
        } else {
            Err(invalid(key))
        },
    }
}

/// Reads the elements of the array held by the member `key`.
pub fn read_array<'a>(value: &'a serde_json::Value, key: &str) -> (r: Result<
    &'a Vec<serde_json::Value>,
    ApiError,
>)
    ensures
        match array_member(json_view(*value), key@) {
            Ok(items) => r matches Ok(found) && json_views(found@) == items,
            Err(message) => r matches Err(error) && error.message@ == message,
        },
{
    match json_get(value, key) {
        None => Err(missing(key)),
        Some(found) => match found.as_array() {
            Some(items) => {
                assert(json_views(items@) == json_view(*found)->Array_0);
                Ok(items)
            },
            None => Err(invalid(key)),
        },
    }
}

/// Reads the number held by the member `key`.
pub fn read_u32(value: &serde_json::Value, key: &str) -> (r: Result<u32, ApiError>)
    ensures
        decoded(r, u32_member(json_view(*value), key@)),
{
    match json_get(value, key) {
        None => Err(missing(key)),
        Some(found) => match found.as_u64() {
            Some(n) => if n <= 0xFFFF_FFFF {
                Ok(n as u32)
            } else {
                Err(invalid(key))
            },
            None => Err(invalid(key)),
        },
    }
}

} // verus!
