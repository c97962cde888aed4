//! Streamed chat completions.
//!
//! The API streams a completion as text lines. A line is blank, or holds one
//! fragment of the completion as `data: ` followed by a JSON object, or is the
//! sentinel `data: [DONE]` that ends the stream. This module frames the bytes
//! of a delivery into lines, classifies lines, decodes fragments, and says
//! what a delivery carries.
use vstd::prelude::*;
use vstd::utf8::{decode_utf8, valid_utf8};
use crate::v1::chat::ChatMessageRole;
use crate::v1::common::{usage_from_json, usage_of, ResponseUsage};
use crate::v1::constants::Model;
use crate::v1::error::ApiError;
use crate::v1::json::{
    array_member,
    decoded,
    get_optional,
    invalid,
    invalid_field,
    json_parse,
    json_view,
    json_views,
    not_an_object,
    not_object,
    object_member,
    optional_text_member,
    parse_json,
    read_array,
    read_object,
    read_optional_text,
    read_text,
    read_u32,
    text_member,
    u32_member,
    JsonModel,
};
use crate::v1::text::{
    chars_eq,
    chars_of,
    is_blank,
    is_whitespace,
    lemma_cut_behind_line_feed,
    lemma_line_end_is,
    lemma_lines_concat,
    lemma_trim_blank,
    lemma_trim_end,
    lemma_trim_fixed,
    lemma_trim_start,
    lines,
    split_lines,
    strip_prefix,
    strip_prefix_chars,
    text_of,
    trim,
    trim_chars,
    trim_start,
    trim_start_chars,
    utf8_fault,
    utf8_text,
    views,
};

verus! {

// -----------------------------------------------------------------------------
// Fragments

/// One incremental unit of a streamed chat completion.
#[derive(Clone, Debug)]
pub struct ChatStreamChunk {
    pub id: String,
    pub object: String,
    /// Unix timestamp (in seconds).
    pub created: u32,
    pub model: Model,
    pub choices: Vec<ChatStreamChunkChoice>,
    pub usage: Option<ResponseUsage>,
}

/// What one fragment adds to one of the parallel completions.
#[derive(Clone, Debug)]
pub struct ChatStreamChunkChoice {
    pub index: u32,
    pub delta: ChatStreamChunkChoiceDelta,
    pub finish_reason: Option<String>,
}

/// The text added by a fragment, and the role on the first fragment of a
/// message.
#[derive(Clone, Debug)]
pub struct ChatStreamChunkChoiceDelta {
    pub role: Option<ChatMessageRole>,
    pub content: String,
}

/// The content of a [`ChatStreamChunkChoiceDelta`].
pub struct DeltaModel {
    pub role: Option<ChatMessageRole>,
    pub content: Seq<char>,
}

/// The content of a [`ChatStreamChunkChoice`].
pub struct ChoiceModel {
    pub index: u32,
    pub delta: DeltaModel,
    pub finish_reason: Option<Seq<char>>,
}

/// The content of a [`ChatStreamChunk`].
pub struct FragmentModel {
    pub id: Seq<char>,
    pub object: Seq<char>,
    pub created: u32,
    pub model: Model,
    pub choices: Seq<ChoiceModel>,
    pub usage: Option<ResponseUsage>,
}

impl View for ChatStreamChunkChoiceDelta {
    type V = DeltaModel;

    open spec fn view(&self) -> DeltaModel {
        DeltaModel { role: self.role, content: self.content@ }
    }
}

impl View for ChatStreamChunkChoice {
    type V = ChoiceModel;

    open spec fn view(&self) -> ChoiceModel {
        ChoiceModel {
            index: self.index,
            delta: self.delta@,
            finish_reason: match self.finish_reason {
                Some(reason) => Some(reason@),
                None => None,
            },
        }
    }
}

/// The contents of a list of choices.
pub open spec fn choice_models(choices: Seq<ChatStreamChunkChoice>) -> Seq<ChoiceModel> {
    choices.map_values(|choice: ChatStreamChunkChoice| choice@)
}

impl View for ChatStreamChunk {
    type V = FragmentModel;

    open spec fn view(&self) -> FragmentModel {
        FragmentModel {
            id: self.id@,
            object: self.object@,
            created: self.created,
            model: self.model,
            choices: choice_models(self.choices@),
            usage: self.usage,
        }
    }
}

impl ChatStreamChunk {
    /// A fragment is well formed when it speaks of at least one choice.
    pub open spec fn wf(&self) -> bool {
        self.choices@.len() > 0
    }
}

// -----------------------------------------------------------------------------
// The fragment schema

/// The delta that a JSON object describes: an optional `role`, which must name
/// a role, and a `content` text.
pub open spec fn delta_of(document: JsonModel) -> Result<DeltaModel, Seq<char>> {
    match optional_text_member(document, "role"@) {
        Err(message) => Err(message),
        Ok(name) => {
            let role = match name {
                Some(name) => ChatMessageRole::named(name),
                None => None,
            };
            if name is Some && role is None {
                Err(invalid_field("role"@))
            } else {
                match text_member(document, "content"@) {
                    Err(message) => Err(message),
                    Ok(content) => Ok(DeltaModel { role, content }),
                }
            }
        },
    }
}

/// The choice that a JSON document describes: an object with an `index`, a
/// `delta` object and an optional `finish_reason` text.
pub open spec fn choice_of(document: JsonModel) -> Result<ChoiceModel, Seq<char>> {
    if !(document is Object) {
        Err(invalid_field("choices"@))
    } else {
        match u32_member(document, "index"@) {
            Err(message) => Err(message),
            Ok(index) => match object_member(document, "delta"@) {
                Err(message) => Err(message),
                Ok(inner) => match delta_of(inner) {
                    Err(message) => Err(message),
                    Ok(delta) => match optional_text_member(document, "finish_reason"@) {
                        Err(message) => Err(message),
                        Ok(finish_reason) => Ok(ChoiceModel { index, delta, finish_reason }),
                    },
                },
            },
        }
    }
}

/// The choices that a JSON array describes, in order; the first element that
/// describes none decides the error.
pub open spec fn choices_of(items: Seq<JsonModel>) -> Result<Seq<ChoiceModel>, Seq<char>>
    decreases items.len(),
{
    if items.len() == 0 {
        Ok(Seq::empty())
    } else {
        match choices_of(items.drop_last()) {
            Err(message) => Err(message),
            Ok(before) => match choice_of(items.last()) {
                Err(message) => Err(message),
                Ok(choice) => Ok(before.push(choice)),
            },
        }
    }
}

/// The fragment that a JSON document describes. The document must be an object
/// with the texts `id` and `object`, the number `created`, a `model` that
/// names a model, and a non-empty array `choices`; `usage` may be absent or
/// `null`. Members are read in this order, and the first that fails decides
/// the error. Other members are ignored.
pub open spec fn fragment_of(document: JsonModel) -> Result<FragmentModel, Seq<char>> {
    if !(document is Object) {
        Err(not_an_object())
    } else {
        match text_member(document, "id"@) {
            Err(message) => Err(message),
            Ok(id) => match text_member(document, "object"@) {
                Err(message) => Err(message),
                Ok(object) => match u32_member(document, "created"@) {
                    Err(message) => Err(message),
                    Ok(created) => match text_member(document, "model"@) {
                        Err(message) => Err(message),
                        Ok(name) => match Model::named(name) {
                            None => Err(invalid_field("model"@)),
                            Some(model) => match fragment_choices_of(document) {
                                Err(message) => Err(message),
                                Ok(choices) => match fragment_usage_of(document) {
                                    Err(message) => Err(message),
                                    Ok(usage) => Ok(
                                        FragmentModel { id, object, created, model, choices, usage },
                                    ),
                                },
                            },
                        },
                    },
                },
            },
        }
    }
}

/// The member `choices` of a fragment: a non-empty array of choices.
pub open spec fn fragment_choices_of(document: JsonModel) -> Result<Seq<ChoiceModel>, Seq<char>> {
    match array_member(document, "choices"@) {
        Err(message) => Err(message),
        Ok(items) => if items.len() == 0 {
            Err(invalid_field("choices"@))
        } else {
            choices_of(items)
        },
    }
}

/// The member `usage` of a fragment, where it has one.
pub open spec fn fragment_usage_of(document: JsonModel) -> Result<Option<ResponseUsage>, Seq<char>> {
    match document.optional_member("usage"@) {
        None => Ok(None),
        Some(inner) => match usage_of(inner) {
            Err(message) => Err(message),
            Ok(usage) => Ok(Some(usage)),
        },
    }
}

// -----------------------------------------------------------------------------
// Writing a fragment down

/// The JSON document that stands for an optional text: the text, or `null`.
pub open spec fn json_of_optional_text(text: Option<Seq<char>>) -> JsonModel {
    match text {
        Some(content) => JsonModel::Text(content),
        None => JsonModel::Null,
    }
}

/// The JSON object that stands for a delta.
pub open spec fn json_of_delta(delta: DeltaModel) -> JsonModel {
    JsonModel::Object(
        Map::empty().insert(
            "role"@,
            json_of_optional_text(
                match delta.role {
                    Some(role) => Some(role.name()),
                    None => None,
                },
            ),
        ).insert("content"@, JsonModel::Text(delta.content)),
    )
}

/// The JSON object that stands for a choice.
pub open spec fn json_of_choice(choice: ChoiceModel) -> JsonModel {
    JsonModel::Object(
        Map::empty().insert("index"@, JsonModel::Integer(choice.index as int)).insert(
            "delta"@,
            json_of_delta(choice.delta),
        ).insert("finish_reason"@, json_of_optional_text(choice.finish_reason)),
    )
}

/// The JSON object that stands for a usage summary.
pub open spec fn json_of_usage(usage: ResponseUsage) -> JsonModel {
    JsonModel::Object(
        Map::empty().insert("prompt_tokens"@, JsonModel::Integer(usage.prompt_tokens as int)).insert(
            "completion_tokens"@,
            JsonModel::Integer(usage.completion_tokens as int),
        ).insert("total_tokens"@, JsonModel::Integer(usage.total_tokens as int)),
    )
}

/// The JSON object that stands for a fragment: one member for each field,
/// `null` for a field that is not set.
pub open spec fn json_of_fragment(fragment: FragmentModel) -> JsonModel {
    JsonModel::Object(
        Map::empty().insert("id"@, JsonModel::Text(fragment.id)).insert(
            "object"@,
            JsonModel::Text(fragment.object),
        ).insert("created"@, JsonModel::Integer(fragment.created as int)).insert(
            "model"@,
            JsonModel::Text(fragment.model.name()),
        ).insert(
            "choices"@,
            JsonModel::Array(fragment.choices.map_values(|choice: ChoiceModel| json_of_choice(choice))),
        ).insert(
            "usage"@,
            match fragment.usage {
                Some(usage) => json_of_usage(usage),
                None => JsonModel::Null,
            },
        ),
    )
}

/// The names of the members of a fragment and of its parts are all different
/// where they stand side by side.
proof fn lemma_member_names()
    ensures
        "id"@.len() == 2,
        "object"@.len() == 6,
        "created"@.len() == 7,
        "model"@.len() == 5,
        "choices"@.len() == 7,
        "usage"@.len() == 5,
        "created"@[1] != "choices"@[1],
        "model"@[0] != "usage"@[0],
        "index"@.len() == 5,
        "delta"@.len() == 5,
        "finish_reason"@.len() == 13,
        "index"@[0] != "delta"@[0],
        "role"@.len() == 4,
        "content"@.len() == 7,
        "prompt_tokens"@.len() == 13,
        "completion_tokens"@.len() == 17,
        "total_tokens"@.len() == 12,
{
    reveal_strlit("id");
    reveal_strlit("object");
    reveal_strlit("created");
    reveal_strlit("model");
    reveal_strlit("choices");
    reveal_strlit("usage");
    reveal_strlit("index");
    reveal_strlit("delta");
    reveal_strlit("finish_reason");
    reveal_strlit("role");
    reveal_strlit("content");
    reveal_strlit("prompt_tokens");
    reveal_strlit("completion_tokens");
    reveal_strlit("total_tokens");
}

/// A delta is read back from the JSON object that stands for it.
pub proof fn lemma_delta_round_trip(delta: DeltaModel)
    ensures
        delta_of(json_of_delta(delta)) == Ok::<DeltaModel, Seq<char>>(delta),
{
    lemma_member_names();
    if let Some(role) = delta.role {
        role.lemma_named_name();
    }
}

/// A choice is read back from the JSON object that stands for it.
pub proof fn lemma_choice_round_trip(choice: ChoiceModel)
    ensures
        choice_of(json_of_choice(choice)) == Ok::<ChoiceModel, Seq<char>>(choice),
{
    lemma_member_names();
    lemma_delta_round_trip(choice.delta);
}

/// Choices are read back, in order, from the JSON objects that stand for them.
pub proof fn lemma_choices_round_trip(choices: Seq<ChoiceModel>)
    ensures
        choices_of(choices.map_values(|choice: ChoiceModel| json_of_choice(choice))) == Ok::<
            Seq<ChoiceModel>,
            Seq<char>,
        >(choices),
    decreases choices.len(),
{
    let items = choices.map_values(|choice: ChoiceModel| json_of_choice(choice));
    if choices.len() > 0 {
        lemma_choices_round_trip(choices.drop_last());
        assert(items.drop_last() == choices.drop_last().map_values(
            |choice: ChoiceModel| json_of_choice(choice),
        ));
        lemma_choice_round_trip(choices.last());
        assert(choices.drop_last().push(choices.last()) == choices);
    } else {
        assert(choices == Seq::<ChoiceModel>::empty());
    }
}

/// A usage summary is read back from the JSON object that stands for it.
pub proof fn lemma_usage_round_trip(usage: ResponseUsage)
    ensures
        usage_of(json_of_usage(usage)) == Ok::<ResponseUsage, Seq<char>>(usage),
{
    lemma_member_names();
}

/// Round trip: a fragment with at least one choice is read back, field by
/// field, from the JSON object that stands for it.
pub proof fn lemma_fragment_round_trip(fragment: FragmentModel)
    requires
        fragment.choices.len() > 0,
    ensures
        fragment_of(json_of_fragment(fragment)) == Ok::<FragmentModel, Seq<char>>(fragment),
{
    lemma_member_names();
    fragment.model.lemma_named_name();
    lemma_choices_round_trip(fragment.choices);
    if let Some(usage) = fragment.usage {
        lemma_usage_round_trip(usage);
    }
}

/// Round trip through a line: where the JSON parser reads the payload of a
/// data line as the object that stands for a fragment, the line yields that
/// fragment and nothing else.
pub proof fn lemma_line_round_trip(fragment: FragmentModel, line: Seq<char>)
    requires
        fragment.choices.len() > 0,
        classify(line) is Data,
        json_parse(payload_of(line)) == Ok::<JsonModel, Seq<char>>(json_of_fragment(fragment)),
    ensures
        line_outcome(line) == Ok::<Option<Seq<FragmentModel>>, Seq<char>>(Some(seq![fragment])),
{
    lemma_fragment_round_trip(fragment);
}

/// Round trip through a line made of the marker and a text: where the text
/// is a payload as `lemma_data_line` asks, not empty and with no whitespace at
/// either end, and the JSON parser reads it as the object that stands for a
/// fragment, the line yields that fragment and nothing else.
pub proof fn lemma_marked_line_round_trip(fragment: FragmentModel, text: Seq<char>)
    requires
        fragment.choices.len() > 0,
        json_parse(text) == Ok::<JsonModel, Seq<char>>(json_of_fragment(fragment)),
        text.len() > 0,
        trim(text) == text,
        text != sentinel().skip(data_prefix().len() as int),
    ensures
        line_outcome(data_prefix() + text) == Ok::<Option<Seq<FragmentModel>>, Seq<char>>(
            Some(seq![fragment]),
        ),
{
    lemma_data_line(text);
    lemma_line_round_trip(fragment, data_prefix() + text);
}

/// Decodes the delta that a JSON object describes.
pub fn delta_from_json(value: &serde_json::Value) -> (r: Result<ChatStreamChunkChoiceDelta, ApiError>)
    ensures
        decoded(r, delta_of(json_view(*value))),
{
    let role = match read_optional_text(value, "role") {
        Err(error) => {
            return Err(error);
        },
        Ok(None) => None,
        Ok(Some(name)) => match ChatMessageRole::from_name(name.as_str()) {
            Some(role) => Some(role),
            None => {
                return Err(invalid("role"));
            },
        },
    };
    match read_text(value, "content") {
        Err(error) => Err(error),
        Ok(content) => Ok(ChatStreamChunkChoiceDelta { role, content }),
    }
}

/// Decodes the choice that a JSON document describes.
pub fn choice_from_json(value: &serde_json::Value) -> (r: Result<ChatStreamChunkChoice, ApiError>)
    ensures
        decoded(r, choice_of(json_view(*value))),
{
    if !value.is_object() {
        return Err(invalid("choices"));
    }
    let index = match read_u32(value, "index") {
        Err(error) => {
            return Err(error);
        },
        Ok(index) => index,
    };
    let delta = match read_object(value, "delta") {
        Err(error) => {
            return Err(error);
        },
        Ok(inner) => match delta_from_json(inner) {
            Err(error) => {
                return Err(error);
            },
            Ok(delta) => delta,
        },
    };
    match read_optional_text(value, "finish_reason") {
        Err(error) => Err(error),
        Ok(finish_reason) => Ok(ChatStreamChunkChoice { index, delta, finish_reason }),
    }
}

/// Decodes the choices that the elements of a JSON array describe.
pub fn choices_from_json(items: &Vec<serde_json::Value>) -> (r: Result<
    Vec<ChatStreamChunkChoice>,
    ApiError,
>)
    ensures
        match choices_of(json_views(items@)) {
            Ok(models) => r matches Ok(choices) && choice_models(choices@) == models,
            Err(message) => r matches Err(error) && error.message@ == message,
        },
        r matches Ok(choices) ==> choices@.len() == items@.len(),
{
    let ghost documents = json_views(items@);
    let mut choices: Vec<ChatStreamChunkChoice> = Vec::new();
    let mut i: usize = 0;
    assert(documents.take(0) == Seq::<JsonModel>::empty());
    assert(choice_models(choices@) == Seq::<
        ChoiceModel,
    >::empty());
    while i < items.len()
        invariant
            i <= items@.len(),
            choices@.len() == i,
            documents == json_views(items@),
            choices_of(documents.take(i as int)) == Ok::<Seq<ChoiceModel>, Seq<char>>(
                choice_models(choices@),
            ),
        decreases items@.len() - i,
    {
        let ghost before = choice_models(choices@);
        assert(documents.take(i + 1).drop_last() == documents.take(i as int));
        assert(documents.take(i + 1).last() == json_view(items@[i as int]));
        match choice_from_json(&items[i]) {
            Err(error) => {
                proof {
                    lemma_choices_fail_early(documents, i + 1);
                }
                return Err(error);
            },
            Ok(choice) => {
                choices.push(choice);
                assert(choice_models(choices@) == before.push(
                    choice@,
                ));
            },
        }
        i += 1;
    }
    assert(documents.take(i as int) == documents);
    Ok(choices)
}

/// An element that describes no choice fails the whole array, with the error
/// of the first such element.
pub proof fn lemma_choices_fail_early(items: Seq<JsonModel>, n: int)
    requires
        0 <= n <= items.len(),
        choices_of(items.take(n)) is Err,
    ensures
        choices_of(items) == choices_of(items.take(n)),
    decreases items.len() - n,
{
    if n < items.len() {
        assert(items.take(n + 1).drop_last() == items.take(n));
        lemma_choices_fail_early(items, n + 1);
    } else {
        assert(items.take(n) == items);
    }
}

/// Decodes the fragment that a parsed JSON document describes.
pub fn fragment_from_json(value: &serde_json::Value) -> (r: Result<ChatStreamChunk, ApiError>)
    ensures
        decoded(r, fragment_of(json_view(*value))),
        r matches Ok(fragment) ==> fragment.wf(),
{
    if !value.is_object() {
        return Err(not_object());
    }
    let id = match read_text(value, "id") {
        Err(error) => {
            return Err(error);
        },
        Ok(id) => id,
    };
    let object = match read_text(value, "object") {
        Err(error) => {
            return Err(error);
        },
        Ok(object) => object,
    };
    let created = match read_u32(value, "created") {
        Err(error) => {
            return Err(error);
        },
        Ok(created) => created,
    };
    let model = match read_text(value, "model") {
        Err(error) => {
            return Err(error);
        },
        Ok(name) => match Model::from_name(name.as_str()) {
            None => {
                return Err(invalid("model"));
            },
            Some(model) => model,
        },
    };
    let choices = match read_array(value, "choices") {
        Err(error) => {
            return Err(error);
        },
        Ok(items) => {
            if items.len() == 0 {
                return Err(invalid("choices"));
            }
            match choices_from_json(items) {
                Err(error) => {
                    return Err(error);
                },
                Ok(choices) => choices,
            }
        },
    };
    let usage = match get_optional(value, "usage") {
        None => None,
        Some(inner) => match usage_from_json(inner) {
            Err(error) => {
                return Err(error);
            },
            Ok(usage) => Some(usage),
        },
    };
    Ok(ChatStreamChunk { id, object, created, model, choices, usage })
}

/// The fragment that a payload describes: what `fragment_of` makes of the
/// document that the JSON parser reads, or the parser's error message.
pub open spec fn decode_payload(payload: Seq<char>) -> Result<FragmentModel, Seq<char>> {
    match json_parse(payload) {
        Err(message) => Err(message),
        Ok(document) => fragment_of(document),
    }
}

/// Decodes one payload into the fragment it describes.
pub fn decode_fragment(payload: &str) -> (r: Result<ChatStreamChunk, ApiError>)
    ensures
        decoded(r, decode_payload(payload@)),
        r matches Ok(fragment) ==> fragment.wf(),
{
    match parse_json(payload) {
        Err(message) => Err(ApiError { message }),
        Ok(value) => fragment_from_json(&value),
    }
}

// -----------------------------------------------------------------------------
// Lines

/// The lines that a delivery of bytes holds: the lines of the text that the
/// bytes encode, or the message of the error where they are not valid UTF-8.
pub open spec fn framed(bytes: Seq<u8>) -> Result<Seq<Seq<char>>, Seq<char>> {
    if valid_utf8(bytes) {
        Ok(lines(decode_utf8(bytes)))
    } else {
        Err(utf8_fault(bytes))
    }
}

/// Splits a delivery of bytes into its lines of text. Each delivery is framed
/// by itself: a line that the transport cut in two comes out as two lines.
pub fn frame_lines(bytes: &[u8]) -> (r: Result<Vec<String>, ApiError>)
    ensures
        match framed(bytes@) {
            Ok(content) => r matches Ok(found) && found@.map_values(|line: String| line@) == content,
            Err(message) => r matches Err(error) && error.message@ == message,
        },
{
    match utf8_text(bytes) {
        Err(message) => Err(ApiError { message }),
        Ok(text) => {
            proof {
                vstd::utf8::encode_utf8_decode_utf8(text@);
            }
            let chars = chars_of(text);
            let parts = split_lines(chars.as_slice());
            let mut found: Vec<String> = Vec::new();
            let mut i: usize = 0;
            while i < parts.len()
                invariant
                    i <= parts@.len(),
                    found@.len() == i,
                    forall|k: int| 0 <= k < i ==> (#[trigger] found@[k])@ == parts@[k]@,
                decreases parts@.len() - i,
            {
                found.push(text_of(parts[i]));
                i += 1;
            }
            assert(found@.map_values(|line: String| line@) == views(parts@));
            Ok(found)
        },
    }
}

/// What one line of the stream means.
#[derive(Clone, Debug)]
pub enum LineEvent<T> {
    /// The sentinel: the stream has ended.
    Termination,
    /// A blank or keep-alive line: it carries nothing.
    Blank,
    /// A line that carries a payload, which should be a JSON fragment.
    Data(T),
}

impl<T: View> View for LineEvent<T> {
    type V = LineEvent<T::V>;

    open spec fn view(&self) -> LineEvent<T::V> {
        match self {
            LineEvent::Termination => LineEvent::Termination,
            LineEvent::Blank => LineEvent::Blank,
            LineEvent::Data(payload) => LineEvent::Data(payload@),
        }
    }
}

/// The line that ends a stream.
pub open spec fn sentinel() -> Seq<char> {
    "data: [DONE]"@
}

/// The marker in front of a payload.
pub open spec fn data_prefix() -> Seq<char> {
    "data: "@
}

/// What is left of a line once the whitespace in front of it and then the
/// marker are taken off, where the marker is there, and the rest is trimmed.
pub open spec fn payload_of(line: Seq<char>) -> Seq<char> {
    trim(strip_prefix(trim_start(line), data_prefix()))
}

/// What a line means. A line that is the sentinel, once trimmed, ends the
/// stream. Any other line carries its payload, or nothing where the payload is
/// empty.
pub open spec fn classify(line: Seq<char>) -> LineEvent<Seq<char>> {
    if trim(line) == sentinel() {
        LineEvent::Termination
    } else if payload_of(line).len() == 0 {
        LineEvent::Blank
    } else {
        LineEvent::Data(payload_of(line))
    }
}

/// The characters of the marker and of the sentinel.
pub proof fn lemma_markers()
    ensures
        data_prefix() == seq!['d', 'a', 't', 'a', ':', ' '],
        sentinel() == data_prefix() + seq!['[', 'D', 'O', 'N', 'E', ']'],
{
    reveal_strlit("data: ");
    reveal_strlit("data: [DONE]");
    assert(data_prefix() =~= seq!['d', 'a', 't', 'a', ':', ' ']);
    assert(sentinel() =~= data_prefix() + seq!['[', 'D', 'O', 'N', 'E', ']']);
}

/// A line that is the sentinel once it is trimmed means the end of the
/// stream, and no other line does.
pub proof fn lemma_sentinel_line(line: Seq<char>)
    ensures
        classify(line) is Termination <==> trim(line) == sentinel(),
{
}

/// A line of nothing but whitespace carries nothing, and so does the marker
/// followed by nothing but whitespace. Neither is an error.
pub proof fn lemma_blank_line(rest: Seq<char>)
    requires
        is_blank(rest),
    ensures
        classify(rest) is Blank,
        classify(data_prefix() + rest) is Blank,
        line_outcome(rest) == Ok::<Option<Seq<FragmentModel>>, Seq<char>>(Some(Seq::empty())),
        line_outcome(data_prefix() + rest) == Ok::<Option<Seq<FragmentModel>>, Seq<char>>(
            Some(Seq::empty()),
        ),
{
    lemma_markers();
    lemma_trim_blank(rest);
    assert(!is_whitespace('d'));
    assert(!is_whitespace(':'));
    // The blank line itself.
    assert(trim(rest) != sentinel());
    let start = lemma_trim_start(rest);
    assert(trim_start(rest).len() == 0) by {
        if start < rest.len() {
            assert(is_whitespace(rest[start]));
        }
    }
    assert(strip_prefix(trim_start(rest), data_prefix()) == trim_start(rest));
    assert(trim(trim_start(rest)).len() == 0) by {
        lemma_trim_blank(trim_start(rest));
    }
    // The marker with a blank rest.
    let line = data_prefix() + rest;
    assert(line.skip(6) == rest);
    assert(data_prefix().is_prefix_of(line));
    let k = lemma_trim_start(line);
    assert(k == 0) by {
        if k > 0 {
            assert(is_whitespace(line[0]));
        }
    }
    assert(line.skip(0) == line);
    assert(strip_prefix(trim_start(line), data_prefix()) == rest);
    let m = lemma_trim_end(line);
    assert(m == 5) by {
        if m > 5 {
            assert(line[m - 1] == if m == 6 {
                ' '
            } else {
                rest[m - 7]
            });
        }
        if m < 5 {
            assert(is_whitespace(line[4]));
        }
    }
    assert(trim(line).len() == 5);
}

/// A line made of the marker and a payload carries that payload, where the
/// payload is not empty, has no whitespace at either end, and is not what is
/// left of the sentinel.
pub proof fn lemma_data_line(payload: Seq<char>)
    requires
        payload.len() > 0,
        trim(payload) == payload,
        payload != sentinel().skip(data_prefix().len() as int),
    ensures
        classify(data_prefix() + payload) == LineEvent::Data(payload),
{
    lemma_markers();
    lemma_trim_fixed(payload);
    assert(!is_whitespace('d'));
    let line = data_prefix() + payload;
    assert(line.skip(6) == payload);
    assert(data_prefix().is_prefix_of(line));
    assert(line[0] == 'd');
    assert(line.last() == payload.last());
    lemma_trim_fixed(line);
    assert(trim(line) == line);
    let k = lemma_trim_start(line);
    assert(k == 0) by {
        if k > 0 {
            assert(is_whitespace(line[0]));
        }
    }
    assert(line.skip(0) == line);
    assert(strip_prefix(trim_start(line), data_prefix()) == payload);
    if line == sentinel() {
        assert(line.skip(6) == sentinel().skip(6));
    }
}

/// Classifies a line given by its characters.
pub fn classify_chars<'a>(line: &'a [char]) -> (r: LineEvent<&'a [char]>)
    ensures
        r@ == classify(line@),
{
    let done = chars_of("data: [DONE]");
    if chars_eq(trim_chars(line), done.as_slice()) {
        return LineEvent::Termination;
    }
    let marker = chars_of("data: ");
    let payload = trim_chars(strip_prefix_chars(trim_start_chars(line), marker.as_slice()));
    if payload.len() == 0 {
        LineEvent::Blank
    } else {
        LineEvent::Data(payload)
    }
}

/// Classifies one line of the stream.
pub fn classify_line(line: &str) -> (r: LineEvent<String>)
    ensures
        r@ == classify(line@),
{
    let chars = chars_of(line);
    match classify_chars(chars.as_slice()) {
        LineEvent::Termination => LineEvent::Termination,
        LineEvent::Blank => LineEvent::Blank,
        LineEvent::Data(payload) => LineEvent::Data(text_of(payload)),
    }
}

/// The contents of a list of fragments.
pub open spec fn fragment_models(fragments: Seq<ChatStreamChunk>) -> Seq<FragmentModel> {
    fragments.map_values(|fragment: ChatStreamChunk| fragment@)
}

/// What one line yields: nothing at all for the sentinel, no fragment for a
/// blank line, and for a data line the one fragment that its payload describes
/// or the error of decoding it.
pub open spec fn line_outcome(line: Seq<char>) -> Result<Option<Seq<FragmentModel>>, Seq<char>> {
    match classify(line) {
        LineEvent::Termination => Ok(None),
        LineEvent::Blank => Ok(Some(Seq::empty())),
        LineEvent::Data(payload) => match decode_payload(payload) {
            Ok(fragment) => Ok(Some(seq![fragment])),
            Err(message) => Err(message),
        },
    }
}

/// Extracts the fragments that one line of a stream carries.
pub fn get_chunk_from_stream_message_line(line: &str) -> (r: Result<
    Option<Vec<ChatStreamChunk>>,
    ApiError,
>)
    ensures
        match line_outcome(line@) {
            Ok(None) => r matches Ok(None),
            Ok(Some(models)) => r matches Ok(Some(fragments)) && fragment_models(fragments@)
                == models,
            Err(message) => r matches Err(error) && error.message@ == message,
        },
        r matches Ok(Some(fragments)) ==> forall|i: int|
            0 <= i < fragments@.len() ==> (#[trigger] fragments@[i]).wf(),
{
    match classify_line(line) {
        LineEvent::Termination => Ok(None),
        LineEvent::Blank => {
            let fragments: Vec<ChatStreamChunk> = Vec::new();
            assert(fragment_models(fragments@) == Seq::<FragmentModel>::empty());
            Ok(Some(fragments))
        },
        LineEvent::Data(payload) => match decode_fragment(payload.as_str()) {
            Ok(fragment) => {
                let mut fragments: Vec<ChatStreamChunk> = Vec::new();
                fragments.push(fragment);
                assert(fragment_models(fragments@) == seq![fragment@]);
                Ok(Some(fragments))
            },
            Err(error) => Err(error),
        },
    }
}

// -----------------------------------------------------------------------------
// Deliveries

/// What one delivery of bytes carried.
#[derive(Debug)]
pub struct Delivery {
    /// The fragments of the data lines that decoded, in order.
    pub fragments: Vec<ChatStreamChunk>,
    /// The errors of the data lines that did not decode, in order.
    pub faults: Vec<ApiError>,
    /// Whether the sentinel was met. Lines behind it are not looked at.
    pub terminated: bool,
}

/// The content of a [`Delivery`].
pub struct DeliveryModel {
    pub fragments: Seq<FragmentModel>,
    pub faults: Seq<Seq<char>>,
    pub terminated: bool,
}

impl View for Delivery {
    type V = DeliveryModel;

    open spec fn view(&self) -> DeliveryModel {
        DeliveryModel {
            fragments: fragment_models(self.fragments@),
            faults: self.faults@.map_values(|fault: ApiError| fault.message@),
            terminated: self.terminated,
        }
    }
}

impl Delivery {
    /// Every fragment of a delivery is well formed.
    pub open spec fn wf(&self) -> bool {
        forall|i: int| 0 <= i < self.fragments@.len() ==> (#[trigger] self.fragments@[i]).wf()
    }
}

/// What a run of lines carries. The lines are taken in order up to the first
/// sentinel; each data line among them adds its fragment, or the message of
/// the error of decoding it.
pub open spec fn scan(lines: Seq<Seq<char>>) -> DeliveryModel
    decreases lines.len(),
{
    if lines.len() == 0 {
        DeliveryModel { fragments: Seq::empty(), faults: Seq::empty(), terminated: false }
    } else {
        let before = scan(lines.drop_last());
        if before.terminated {
            before
        } else {
            match classify(lines.last()) {
                LineEvent::Termination => DeliveryModel { terminated: true, ..before },
                LineEvent::Blank => before,
                LineEvent::Data(payload) => match decode_payload(payload) {
                    Ok(fragment) => DeliveryModel {
                        fragments: before.fragments.push(fragment),
                        ..before
                    },
                    Err(message) => DeliveryModel { faults: before.faults.push(message), ..before },
                },
            }
        }
    }
}

/// What a delivery of bytes carries: the bytes are read as UTF-8, split into
/// lines and scanned. Bytes that are not valid UTF-8 carry nothing but an
/// error.
pub open spec fn delivery_of(bytes: Seq<u8>) -> Result<DeliveryModel, Seq<char>> {
    match framed(bytes) {
        Ok(content) => Ok(scan(content)),
        Err(message) => Err(message),
    }
}

impl DeliveryModel {
    /// What two deliveries carry, one after the other: what the first carries
    /// where it holds the sentinel, else the fragments and faults of both.
    pub open spec fn followed_by(self, next: DeliveryModel) -> DeliveryModel {
        if self.terminated {
            self
        } else {
            DeliveryModel {
                fragments: self.fragments + next.fragments,
                faults: self.faults + next.faults,
                terminated: next.terminated,
            }
        }
    }
}

/// Scanning two runs of lines put together is scanning the first and then
/// the second.
pub proof fn lemma_scan_concat(first: Seq<Seq<char>>, second: Seq<Seq<char>>)
    ensures
        scan(first + second) == scan(first).followed_by(scan(second)),
    decreases second.len(),
{
    if second.len() == 0 {
        assert(first + second == first);
        assert(scan(first).fragments + Seq::<FragmentModel>::empty() == scan(first).fragments);
        assert(scan(first).faults + Seq::<Seq<char>>::empty() == scan(first).faults);
    } else {
        let shorter = second.drop_last();
        assert((first + second).drop_last() == first + shorter);
        assert((first + second).last() == second.last());
        lemma_scan_concat(first, shorter);
        let a = scan(first);
        let b = scan(shorter);
        if !a.terminated && !b.terminated {
            match classify(second.last()) {
                LineEvent::Data(payload) => match decode_payload(payload) {
                    Ok(fragment) => {
                        assert((a.fragments + b.fragments).push(fragment) == a.fragments
                            + b.fragments.push(fragment));
                    },
                    Err(message) => {
                        assert((a.faults + b.faults).push(message) == a.faults + b.faults.push(
                            message,
                        ));
                    },
                },
                _ => {},
            }
        }
    }
}

/// Bytes cut behind a line feed carry what the first part carries and then
/// what the second part carries, where the bytes are valid UTF-8; and so is
/// each part.
pub proof fn lemma_delivery_concat(bytes: Seq<u8>, at: int)
    requires
        valid_utf8(bytes),
        0 <= at <= bytes.len(),
        at > 0 ==> bytes[at - 1] == 0x0A,
    ensures
        delivery_of(bytes) is Ok,
        delivery_of(bytes.take(at)) is Ok,
        delivery_of(bytes.skip(at)) is Ok,
        delivery_of(bytes)->Ok_0 == delivery_of(bytes.take(at))->Ok_0.followed_by(
            delivery_of(bytes.skip(at))->Ok_0,
        ),
{
    lemma_cut_behind_line_feed(bytes, at);
    lemma_lines_concat(decode_utf8(bytes.take(at)), decode_utf8(bytes.skip(at)));
    lemma_scan_concat(lines(decode_utf8(bytes.take(at))), lines(decode_utf8(bytes.skip(at))));
}

/// The bytes of one line of text with a line feed behind it.
pub open spec fn line_bytes(line: Seq<char>) -> Seq<u8> {
    vstd::utf8::encode_utf8(line.push('\n'))
}

/// The bytes of one line carry what that line carries. This is said of a
/// line that holds no line feed and does not end with a carriage return.
pub proof fn lemma_one_line_delivery(line: Seq<char>)
    requires
        forall|i: int| 0 <= i < line.len() ==> line[i] != '\n',
        line.len() == 0 || line.last() != '\r',
    ensures
        framed(line_bytes(line)) == Ok::<Seq<Seq<char>>, Seq<char>>(seq![line]),
        delivery_of(line_bytes(line)) == Ok::<DeliveryModel, Seq<char>>(scan(seq![line])),
{
    let text = line.push('\n');
    vstd::utf8::encode_utf8_valid_utf8(text);
    vstd::utf8::encode_utf8_decode_utf8(text);
    lemma_line_end_is(text, line.len() as int);
    assert(text.take(line.len() as int) == line);
    assert(text.skip(line.len() as int + 1) == Seq::<char>::empty());
    assert(lines(Seq::<char>::empty()) == Seq::<Seq<char>>::empty());
    assert(seq![line] + Seq::<Seq<char>>::empty() == seq![line]);
}

/// What a single line carries: its fragment, its fault, the sentinel, or
/// nothing.
pub proof fn lemma_scan_one_line(line: Seq<char>)
    ensures
        scan(seq![line]) == (match classify(line) {
            LineEvent::Termination => DeliveryModel {
                fragments: Seq::empty(),
                faults: Seq::empty(),
                terminated: true,
            },
            LineEvent::Blank => DeliveryModel {
                fragments: Seq::empty(),
                faults: Seq::empty(),
                terminated: false,
            },
            LineEvent::Data(payload) => match decode_payload(payload) {
                Ok(fragment) => DeliveryModel {
                    fragments: seq![fragment],
                    faults: Seq::empty(),
                    terminated: false,
                },
                Err(message) => DeliveryModel {
                    fragments: Seq::empty(),
                    faults: seq![message],
                    terminated: false,
                },
            },
        }),
{
    let one = seq![line];
    let none = Seq::<Seq<char>>::empty();
    assert(one.drop_last() == none);
    assert(one.last() == line);
    assert(scan(none) == DeliveryModel {
        fragments: Seq::empty(),
        faults: Seq::empty(),
        terminated: false,
    });
    match classify(line) {
        LineEvent::Data(payload) => match decode_payload(payload) {
            Ok(fragment) => {
                assert(Seq::<FragmentModel>::empty().push(fragment) == seq![fragment]);
            },
            Err(message) => {
                assert(Seq::<Seq<char>>::empty().push(message) == seq![message]);
            },
        },
        _ => {},
    }
}

/// Once the sentinel is met, the lines behind it change nothing.
pub proof fn lemma_scan_stops(lines: Seq<Seq<char>>, n: int)
    requires
        0 <= n <= lines.len(),
        scan(lines.take(n)).terminated,
    ensures
        scan(lines) == scan(lines.take(n)),
    decreases lines.len() - n,
{
    if n < lines.len() {
        assert(lines.take(n + 1).drop_last() == lines.take(n));
        lemma_scan_stops(lines, n + 1);
    } else {
        assert(lines.take(n) == lines);
    }
}

/// A line that is the sentinel ends the scan: the scan is terminated, and the
/// lines behind the sentinel add no fragment and no error to it.
pub proof fn lemma_sentinel_ends_scan(lines: Seq<Seq<char>>, at: int)
    requires
        0 <= at < lines.len(),
        trim(lines[at]) == sentinel(),
    ensures
        scan(lines).terminated,
        scan(lines).fragments == scan(lines.take(at)).fragments,
        scan(lines).faults == scan(lines.take(at)).faults,
{
    assert(lines.take(at + 1).drop_last() == lines.take(at));
    assert(lines.take(at + 1).last() == lines[at]);
    lemma_scan_stops(lines, at + 1);
}

/// Only the sentinel ends a scan: where no line is the sentinel, whatever
/// else the lines hold, real fragments or text that does not decode, the scan
/// is not terminated.
pub proof fn lemma_scan_goes_on(lines: Seq<Seq<char>>)
    requires
        forall|i: int| 0 <= i < lines.len() ==> trim(#[trigger] lines[i]) != sentinel(),
    ensures
        !scan(lines).terminated,
    decreases lines.len(),
{
    if lines.len() > 0 {
        lemma_scan_goes_on(lines.drop_last());
        assert(trim(lines[lines.len() - 1]) != sentinel());
    }
}

/// A data line whose payload does not decode is an error of that line alone:
/// the scan of the lines up to and with it holds the fragments decoded before
/// it, unchanged, and the line's error as its last fault.
pub proof fn lemma_fault_is_local(lines: Seq<Seq<char>>, payload: Seq<char>)
    requires
        lines.len() > 0,
        classify(lines.last()) == LineEvent::Data(payload),
        decode_payload(payload) is Err,
        !scan(lines.drop_last()).terminated,
    ensures
        line_outcome(lines.last()) == Err::<Option<Seq<FragmentModel>>, Seq<char>>(
            decode_payload(payload)->Err_0,
        ),
        scan(lines).fragments == scan(lines.drop_last()).fragments,
        scan(lines).faults == scan(lines.drop_last()).faults.push(decode_payload(payload)->Err_0),
        !scan(lines).terminated,
{
}

/// Scans the lines of a text.
pub fn scan_lines(lines: &Vec<&[char]>) -> (r: Delivery)
    ensures
        r@ == scan(views(lines@)),
        r.wf(),
{
    let ghost all = views(lines@);
    let mut fragments: Vec<ChatStreamChunk> = Vec::new();
    let mut faults: Vec<ApiError> = Vec::new();
    let mut i: usize = 0;
    assert(all.take(0) == Seq::<Seq<char>>::empty());
    assert(fragment_models(fragments@) == Seq::<FragmentModel>::empty());
    assert(faults@.map_values(|fault: ApiError| fault.message@) == Seq::<Seq<char>>::empty());
    while i < lines.len()
        invariant
            i <= lines@.len(),
            all == views(lines@),
            scan(all.take(i as int)) == (DeliveryModel {
                fragments: fragment_models(fragments@),
                faults: faults@.map_values(|fault: ApiError| fault.message@),
                terminated: false,
            }),
            forall|k: int| 0 <= k < fragments@.len() ==> (#[trigger] fragments@[k]).wf(),
        decreases lines@.len() - i,
    {
        let ghost before = fragment_models(fragments@);
        let ghost faults_before = faults@.map_values(|fault: ApiError| fault.message@);
        assert(all.take(i + 1).drop_last() == all.take(i as int));
        assert(all.take(i + 1).last() == lines@[i as int]@);
        match classify_chars(lines[i]) {
            LineEvent::Termination => {
                proof {
                    lemma_scan_stops(all, i + 1);
                }
                return Delivery { fragments, faults, terminated: true };
            },
            LineEvent::Blank => {},
            LineEvent::Data(payload) => {
                let text = text_of(payload);
                match decode_fragment(text.as_str()) {
                    Ok(fragment) => {
                        fragments.push(fragment);
                        assert(fragment_models(fragments@) == before.push(fragment@));
                    },
                    Err(error) => {
                        faults.push(error);
                        assert(faults@.map_values(|fault: ApiError| fault.message@)
                            == faults_before.push(error.message@));
                    },
                }
            },
        }
        i += 1;
    }
    assert(all.take(i as int) == all);
    Delivery { fragments, faults, terminated: false }
}

/// Decodes one delivery of bytes.
pub fn decode_delivery(bytes: &[u8]) -> (r: Result<Delivery, ApiError>)
    ensures
        decoded(r, delivery_of(bytes@)),
        r matches Ok(delivery) ==> delivery.wf(),
{
    match utf8_text(bytes) {
        Err(message) => Err(ApiError { message }),
        Ok(text) => {
            proof {
                vstd::utf8::encode_utf8_decode_utf8(text@);
            }
            let chars = chars_of(text);
            let lines = split_lines(chars.as_slice());
            Ok(scan_lines(&lines))
        },
    }
}

} // verus!
