//! Helpers for showing JSON to a person.
use vstd::prelude::*;
use vstd::string::StringExecFns;
use crate::v1::json::{json_parse, json_pretty, json_view, parse_json, pretty_json, JsonModel};

verus! {

/// The prettified form of a text: the indented text of the document that it
/// holds, or the text itself where it holds no JSON document.
pub open spec fn prettify(json: Seq<char>) -> Seq<char> {
    match json_parse(json) {
        Ok(document) => json_pretty(document),
        Err(_) => json,
    }
}

/// Text that holds no JSON document is its own prettified form, however
/// often it is prettified.
pub proof fn lemma_prettify_not_json(json: Seq<char>)
    requires
        json_parse(json) is Err,
    ensures
        prettify(json) == json,
        prettify(prettify(json)) == prettify(json),
{
}

/// Prettifying twice is prettifying once. This is said of a text that holds
/// no JSON document, and of one whose document is read back from its own
/// indented text. It is not said of every document: a number with a fraction
/// may be read back as its neighbour.
pub proof fn lemma_prettify_twice(json: Seq<char>)
    requires
        json_parse(json) matches Ok(document) ==> json_parse(json_pretty(document)) == Ok::<
            JsonModel,
            Seq<char>,
        >(document),
    ensures
        prettify(prettify(json)) == prettify(json),
{
}

/// The line that shows a text under a label.
pub open spec fn labelled(label: Seq<char>, text: Seq<char>) -> Seq<char> {
    label + ": "@ + text
}

/// The text that was written for a document, or `fallback` where none was.
pub fn pretty_or(written: Option<String>, fallback: &String) -> (r: String)
    ensures
        r@ == (match written {
            Some(pretty) => pretty@,
            None => fallback@,
        }),
{
    match written {
        Some(pretty) => pretty,
        None => fallback.clone(),
    }
}

/// The indented text of a parsed document. `fallback` stands by for a
/// document that could not be written, which there is none.
pub fn prettify_json_value(value: &serde_json::Value, fallback: &String) -> (r: String)
    ensures
        r@ == json_pretty(json_view(*value)),
{
    pretty_or(pretty_json(value), fallback)
}

/// Prettifies JSON text: indents it where it holds a JSON document, and hands
/// it back as it is where it does not.
pub fn prettify_json_string(json: &String) -> (r: String)
    ensures
        r@ == prettify(json@),
{
    match parse_json(json.as_str()) {
        Ok(json_value) => prettify_json_value(&json_value, json),
        Err(_) => json.clone(),
    }
}

/// The line that shows a prettified text under a label.
pub fn label_line(label: &str, pretty: &str) -> (line: String)
    ensures
        line@ == labelled(label@, pretty@),
{
    String::from_str(label).concat(": ").concat(pretty)
}

/// The line that shows JSON text, prettified, under a label. Writing the line
/// to a log is left to the caller.
pub fn debug_pretty_json_from_string(label: &str, json: &String) -> (line: String)
    ensures
        line@ == labelled(label@, prettify(json@)),
{
    let pretty_json = prettify_json_string(json);

    label_line(label, pretty_json.as_str())
}

} // verus!
