//! Chat messages, chat requests and the replies to them.
use vstd::prelude::*;
use crate::v1::common::{usage_from_json, usage_of, ResponseUsage, Single};
use crate::v1::constants::Model;
use crate::v1::error::ApiError;
use crate::v1::json::{
    array_member,
    decoded,
    get_optional,
    invalid,
    invalid_field,
    json_parse,
    json_view,
    json_views,
    not_an_object,
    not_object,
    object_member,
    parse_json,
    read_array,
    read_object,
    read_text,
    read_u32,
    text_member,
    u32_member,
    JsonModel,
};
use crate::v1::text::text_eq;
use crate::v1::tool::{Tool, ToolCall, ToolCallFunction, ToolCallModel, ToolChoice};

verus! {

// -----------------------------------------------------------------------------
// Definitions

/// One message of a conversation.
#[derive(Clone, Debug)]
pub struct ChatMessage {
    pub role: ChatMessageRole,
    pub content: String,
    pub tool_calls: Option<Vec<ToolCall>>,
}

/// The content of a [`ChatMessage`].
pub struct MessageModel {
    pub role: ChatMessageRole,
    pub content: Seq<char>,
    pub tool_calls: Option<Seq<ToolCallModel>>,
}

/// The contents of a list of tool calls.
pub open spec fn tool_call_models(calls: Seq<ToolCall>) -> Seq<ToolCallModel> {
    calls.map_values(|call: ToolCall| call@)
}

impl View for ChatMessage {
    type V = MessageModel;

    open spec fn view(&self) -> MessageModel {
        MessageModel {
            role: self.role,
            content: self.content@,
            tool_calls: match self.tool_calls {
                Some(calls) => Some(tool_call_models(calls@)),
                None => None,
            },
        }
    }
}

impl ChatMessage {
    /// A message of the assistant, with the tool calls it asks for, if any.
    pub fn new_assistant_message(content: &str, tool_calls: Option<Vec<ToolCall>>) -> (r: Self)
        ensures
            r.role == ChatMessageRole::Assistant,
            r.content@ == content@,
            r.tool_calls == tool_calls,
    {
        Self { role: ChatMessageRole::Assistant, content: content.to_string(), tool_calls }
    }

    /// A message of the user.
    pub fn new_user_message(content: &str) -> (r: Self)
        ensures
            r.role == ChatMessageRole::User,
            r.content@ == content@,
            r.tool_calls is None,
    {
        Self { role: ChatMessageRole::User, content: content.to_string(), tool_calls: None }
    }
}

/// Who wrote a message.
#[derive(Clone, Copy, Debug, PartialEq, Eq, Structural)]
pub enum ChatMessageRole {
    System,
    Assistant,
    User,
    Tool,
}

impl ChatMessageRole {
    /// The name by which the API knows this role.
    pub open spec fn name(self) -> Seq<char> {
        match self {
            ChatMessageRole::System => "system"@,
            ChatMessageRole::Assistant => "assistant"@,
            ChatMessageRole::User => "user"@,
            ChatMessageRole::Tool => "tool"@,
        }
    }

    /// The role that the API knows by `name`, if there is one.
    pub open spec fn named(name: Seq<char>) -> Option<ChatMessageRole> {
        if name == ChatMessageRole::System.name() {
            Some(ChatMessageRole::System)
        } else if name == ChatMessageRole::Assistant.name() {
            Some(ChatMessageRole::Assistant)
        } else if name == ChatMessageRole::User.name() {
            Some(ChatMessageRole::User)
        } else if name == ChatMessageRole::Tool.name() {
            Some(ChatMessageRole::Tool)
        } else {
            None
        }
    }

    /// The name by which the API knows this role.
    pub fn as_str(&self) -> (r: &'static str)
        ensures
            r@ == self.name(),
    {
        match self {
            ChatMessageRole::System => "system",
            ChatMessageRole::Assistant => "assistant",
            ChatMessageRole::User => "user",
            ChatMessageRole::Tool => "tool",
        }
    }

    /// Looks a role up by its name.
    pub fn from_name(name: &str) -> (r: Option<ChatMessageRole>)
        ensures
            r == ChatMessageRole::named(name@),
    {
        if text_eq(name, "system") {
            Some(ChatMessageRole::System)
        } else if text_eq(name, "assistant") {
            Some(ChatMessageRole::Assistant)
        } else if text_eq(name, "user") {
            Some(ChatMessageRole::User)
        } else if text_eq(name, "tool") {
            Some(ChatMessageRole::Tool)
        } else {
            None
        }
    }

    /// Every role is found again by its own name: no two roles share one.
    pub proof fn lemma_named_name(self)
        ensures
            ChatMessageRole::named(self.name()) == Some(self),
    {
        reveal_strlit("system");
        reveal_strlit("assistant");
        reveal_strlit("user");
        reveal_strlit("tool");
        assert("system"@.len() == 6);
        assert("assistant"@.len() == 9);
        assert("user"@.len() == 4);
        assert("tool"@.len() == 4);
        assert("user"@[0] == 'u');
        assert("tool"@[0] == 't');
    }
}

/// The format that the model must output.
#[derive(Clone, Debug)]
pub struct ResponseFormat {
    pub type_: String,
}

impl ResponseFormat {
    /// The format that makes the model answer with a JSON object.
    pub fn json_object() -> (r: Self)
        ensures
            r.type_@ == "json_object"@,
    {
        Self { type_: "json_object".to_string() }
    }
}

// -----------------------------------------------------------------------------
// Request

/// The bit pattern of the sampling temperature used where none is given: 0.7.
pub const DEFAULT_TEMPERATURE: u32 = 0x3F33_3333;

/// The bit pattern of the nucleus-sampling mass used where none is given: 1.0.
pub const DEFAULT_TOP_P: u32 = 0x3F80_0000;

/// The parameters of a chat request.
#[derive(Clone, Debug)]
pub struct ChatParams {
    /// The maximum number of tokens to generate in the completion.
    pub max_tokens: Option<u32>,
    /// The seed to use for random sampling.
    pub random_seed: Option<u32>,
    /// The format that the model must output.
    pub response_format: Option<ResponseFormat>,
    /// Whether to inject a safety prompt before all conversations.
    pub safe_prompt: bool,
    /// The sampling temperature, between 0.0 and 1.0.
    pub temperature: Single,
    /// Whether and how functions are called.
    pub tool_choice: Option<ToolChoice>,
    /// The tools that the model may use.
    pub tools: Option<Vec<Tool>>,
    /// Nucleus sampling: the probability mass of the tokens considered.
    pub top_p: Single,
}

impl ChatParams {
    /// Whether these are the parameters used where none are given: nothing is
    /// set, no safety prompt, and the default temperature and mass.
    pub open spec fn is_default(&self) -> bool {
        &&& self.max_tokens is None
        &&& self.random_seed is None
        &&& self.response_format is None
        &&& !self.safe_prompt
        &&& self.temperature.bits == DEFAULT_TEMPERATURE
        &&& self.tool_choice is None
        &&& self.tools is None
        &&& self.top_p.bits == DEFAULT_TOP_P
    }

    /// The parameters used where none are given.
    pub fn json_default() -> (r: Self)
        ensures
            r.is_default(),
    {
        Self {
            max_tokens: None,
            random_seed: None,
            safe_prompt: false,
            response_format: None,
            temperature: Single { bits: DEFAULT_TEMPERATURE },
            tool_choice: None,
            tools: None,
            top_p: Single { bits: DEFAULT_TOP_P },
        }
    }
}

impl Default for ChatParams {
    fn default() -> (r: Self)
        ensures
            r.is_default(),
    {
        Self {
            max_tokens: None,
            random_seed: None,
            safe_prompt: false,
            response_format: None,
            temperature: Single { bits: DEFAULT_TEMPERATURE },
            tool_choice: None,
            tools: None,
            top_p: Single { bits: DEFAULT_TOP_P },
        }
    }
}

/// A chat request, as it is sent.
#[derive(Debug)]
pub struct ChatRequest {
    pub messages: Vec<ChatMessage>,
    pub model: Model,
    pub max_tokens: Option<u32>,
    pub random_seed: Option<u32>,
    pub response_format: Option<ResponseFormat>,
    pub safe_prompt: bool,
    pub stream: bool,
    pub temperature: Single,
    pub tool_choice: Option<ToolChoice>,
    pub tools: Option<Vec<Tool>>,
    pub top_p: Single,
}

impl ChatRequest {
    /// Whether the request carries exactly the given parameters.
    pub open spec fn carries(&self, params: ChatParams) -> bool {
        &&& self.max_tokens == params.max_tokens
        &&& self.random_seed == params.random_seed
        &&& self.response_format == params.response_format
        &&& self.safe_prompt == params.safe_prompt
        &&& self.temperature == params.temperature
        &&& self.tool_choice == params.tool_choice
        &&& self.tools == params.tools
        &&& self.top_p == params.top_p
    }

    /// Whether the request carries the default parameters.
    pub open spec fn carries_defaults(&self) -> bool {
        &&& self.max_tokens is None
        &&& self.random_seed is None
        &&& self.response_format is None
        &&& !self.safe_prompt
        &&& self.temperature.bits == DEFAULT_TEMPERATURE
        &&& self.tool_choice is None
        &&& self.tools is None
        &&& self.top_p.bits == DEFAULT_TOP_P
    }

    /// Whether this is the request made of the given model, conversation and
    /// parameters, with the default parameters where none are given.
    pub open spec fn describes(
        &self,
        model: Model,
        messages: Vec<ChatMessage>,
        stream: bool,
        options: Option<ChatParams>,
    ) -> bool {
        &&& self.model == model
        &&& self.messages == messages
        &&& self.stream == stream
        &&& match options {
            Some(params) => self.carries(params),
            None => self.carries_defaults(),
        }
    }

    /// Makes a request of a model, a conversation and parameters. Where no
    /// parameters are given the default ones are used.
    pub fn new(
        model: Model,
        messages: Vec<ChatMessage>,
        stream: bool,
        options: Option<ChatParams>,
    ) -> (r: Self)
        ensures
            r.describes(model, messages, stream, options),
    {
        let ChatParams {
            max_tokens,
            random_seed,
            safe_prompt,
            temperature,
            tool_choice,
            tools,
            top_p,
            response_format,
        } = match options {
            Some(params) => params,
            None => ChatParams::default(),
        };

        Self {
            messages,
            model,
            max_tokens,
            random_seed,
            safe_prompt,
            stream,
            temperature,
            tool_choice,
            tools,
            top_p,
            response_format,
        }
    }
}

// -----------------------------------------------------------------------------
// Response

/// The reply to a chat request.
#[derive(Clone, Debug)]
pub struct ChatResponse {
    pub id: String,
    pub object: String,
    /// Unix timestamp (in seconds).
    pub created: u32,
    pub model: Model,
    pub choices: Vec<ChatResponseChoice>,
    pub usage: ResponseUsage,
}

/// One of the completions of a reply.
#[derive(Clone, Debug)]
pub struct ChatResponseChoice {
    pub index: u32,
    pub message: ChatMessage,
    pub finish_reason: ChatResponseChoiceFinishReason,
}

/// Why a completion ended.
#[derive(Clone, Copy, Debug, PartialEq, Eq, Structural)]
pub enum ChatResponseChoiceFinishReason {
    Stop,
    ToolCalls,
}

impl ChatResponseChoiceFinishReason {
    /// The name by which the API knows this reason.
    pub open spec fn name(self) -> Seq<char> {
        match self {
            ChatResponseChoiceFinishReason::Stop => "stop"@,
            ChatResponseChoiceFinishReason::ToolCalls => "tool_calls"@,
        }
    }

    /// The reason that the API knows by `name`, if there is one.
    pub open spec fn named(name: Seq<char>) -> Option<ChatResponseChoiceFinishReason> {
        if name == ChatResponseChoiceFinishReason::Stop.name() {
            Some(ChatResponseChoiceFinishReason::Stop)
        } else if name == ChatResponseChoiceFinishReason::ToolCalls.name() {
            Some(ChatResponseChoiceFinishReason::ToolCalls)
        } else {
            None
        }
    }

    /// The name by which the API knows this reason.
    pub fn as_str(&self) -> (r: &'static str)
        ensures
            r@ == self.name(),
    {
        match self {
            ChatResponseChoiceFinishReason::Stop => "stop",
            ChatResponseChoiceFinishReason::ToolCalls => "tool_calls",
        }
    }

    /// Looks a reason up by its name.
    pub fn from_name(name: &str) -> (r: Option<ChatResponseChoiceFinishReason>)
        ensures
            r == ChatResponseChoiceFinishReason::named(name@),
    {
        if text_eq(name, "stop") {
            Some(ChatResponseChoiceFinishReason::Stop)
        } else if text_eq(name, "tool_calls") {
            Some(ChatResponseChoiceFinishReason::ToolCalls)
        } else {
            None
        }
    }
}

/// The content of a [`ChatResponseChoice`].
pub struct ResponseChoiceModel {
    pub index: u32,
    pub message: MessageModel,
    pub finish_reason: ChatResponseChoiceFinishReason,
}

/// The content of a [`ChatResponse`].
pub struct ResponseModel {
    pub id: Seq<char>,
    pub object: Seq<char>,
    pub created: u32,
    pub model: Model,
    pub choices: Seq<ResponseChoiceModel>,
    pub usage: ResponseUsage,
}

impl View for ChatResponseChoice {
    type V = ResponseChoiceModel;

    open spec fn view(&self) -> ResponseChoiceModel {
        ResponseChoiceModel {
            index: self.index,
            message: self.message@,
            finish_reason: self.finish_reason,
        }
    }
}

/// The contents of a list of choices.
pub open spec fn response_choice_models(choices: Seq<ChatResponseChoice>) -> Seq<
    ResponseChoiceModel,
> {
    choices.map_values(|choice: ChatResponseChoice| choice@)
}

impl View for ChatResponse {
    type V = ResponseModel;

    open spec fn view(&self) -> ResponseModel {
        ResponseModel {
            id: self.id@,
            object: self.object@,
            created: self.created,
            model: self.model,
            choices: response_choice_models(self.choices@),
            usage: self.usage,
        }
    }
}

// -----------------------------------------------------------------------------
// The response schema

/// The tool call that a JSON document describes: an object whose member
/// `function` is an object with the texts `name` and `arguments`.
pub open spec fn tool_call_of(document: JsonModel) -> Result<ToolCallModel, Seq<char>> {
    if !(document is Object) {
        Err(invalid_field("tool_calls"@))
    } else {
        match object_member(document, "function"@) {
            Err(message) => Err(message),
            Ok(function) => match text_member(function, "name"@) {
                Err(message) => Err(message),
                Ok(name) => match text_member(function, "arguments"@) {
                    Err(message) => Err(message),
                    Ok(arguments) => Ok(ToolCallModel { name, arguments }),
                },
            },
        }
    }
}

/// The tool calls that a JSON array describes, in order; the first element
/// that describes none decides the error.
pub open spec fn tool_calls_of(items: Seq<JsonModel>) -> Result<Seq<ToolCallModel>, Seq<char>>
    decreases items.len(),
{
    if items.len() == 0 {
        Ok(Seq::empty())
    } else {
        match tool_calls_of(items.drop_last()) {
            Err(message) => Err(message),
            Ok(before) => match tool_call_of(items.last()) {
                Err(message) => Err(message),
                Ok(call) => Ok(before.push(call)),
            },
        }
    }
}

/// The member `tool_calls` of a message, where it has one that is not `null`:
/// an array of tool calls.
pub open spec fn message_tool_calls_of(document: JsonModel) -> Result<
    Option<Seq<ToolCallModel>>,
    Seq<char>,
> {
    match document.optional_member("tool_calls"@) {
        None => Ok(None),
        Some(JsonModel::Array(items)) => match tool_calls_of(items) {
            Err(message) => Err(message),
            Ok(calls) => Ok(Some(calls)),
        },
        Some(_) => Err(invalid_field("tool_calls"@)),
    }
}

/// The message that a JSON object describes: a `role` that names a role, a
/// `content` text, and optional `tool_calls`.
pub open spec fn message_of(document: JsonModel) -> Result<MessageModel, Seq<char>> {
    match text_member(document, "role"@) {
        Err(message) => Err(message),
        Ok(name) => match ChatMessageRole::named(name) {
            None => Err(invalid_field("role"@)),
            Some(role) => match text_member(document, "content"@) {
                Err(message) => Err(message),
                Ok(content) => match message_tool_calls_of(document) {
                    Err(message) => Err(message),
                    Ok(tool_calls) => Ok(MessageModel { role, content, tool_calls }),
                },
            },
        },
    }
}

/// The choice that a JSON document describes: an object with an `index`, a
/// `message` object and a `finish_reason` that names a reason.
pub open spec fn response_choice_of(document: JsonModel) -> Result<ResponseChoiceModel, Seq<char>> {
    if !(document is Object) {
        Err(invalid_field("choices"@))
    } else {
        match u32_member(document, "index"@) {
            Err(message) => Err(message),
            Ok(index) => match object_member(document, "message"@) {
                Err(message) => Err(message),
                Ok(inner) => match message_of(inner) {
                    Err(message) => Err(message),
                    Ok(message) => match text_member(document, "finish_reason"@) {
                        Err(message) => Err(message),
                        Ok(name) => match ChatResponseChoiceFinishReason::named(name) {
                            None => Err(invalid_field("finish_reason"@)),
                            Some(finish_reason) => Ok(
                                ResponseChoiceModel { index, message, finish_reason },
                            ),
                        },
                    },
                },
            },
        }
    }
}

/// The choices that a JSON array describes, in order; the first element that
/// describes none decides the error.
pub open spec fn response_choices_of(items: Seq<JsonModel>) -> Result<
    Seq<ResponseChoiceModel>,
    Seq<char>,
>
    decreases items.len(),
{
    if items.len() == 0 {
        Ok(Seq::empty())
    } else {
        match response_choices_of(items.drop_last()) {
            Err(message) => Err(message),
            Ok(before) => match response_choice_of(items.last()) {
                Err(message) => Err(message),
                Ok(choice) => Ok(before.push(choice)),
            },
        }
    }
}

/// The reply that a JSON document describes. The document must be an object
/// with the texts `id` and `object`, the number `created`, a `model` that
/// names a model, an array `choices` and an object `usage`. Members are read
/// in this order, and the first that fails decides the error. Other members
/// are ignored.
pub open spec fn response_of(document: JsonModel) -> Result<ResponseModel, Seq<char>> {
    if !(document is Object) {
        Err(not_an_object())
    } else {
        match text_member(document, "id"@) {
            Err(message) => Err(message),
            Ok(id) => match text_member(document, "object"@) {
                Err(message) => Err(message),
                Ok(object) => match u32_member(document, "created"@) {
                    Err(message) => Err(message),
                    Ok(created) => match text_member(document, "model"@) {
                        Err(message) => Err(message),
                        Ok(name) => match Model::named(name) {
                            None => Err(invalid_field("model"@)),
                            Some(model) => match array_member(document, "choices"@) {
                                Err(message) => Err(message),
                                Ok(items) => match response_choices_of(items) {
                                    Err(message) => Err(message),
                                    Ok(choices) => match object_member(document, "usage"@) {
                                        Err(message) => Err(message),
                                        Ok(inner) => match usage_of(inner) {
                                            Err(message) => Err(message),
                                            Ok(usage) => Ok(
                                                ResponseModel {
                                                    id,
                                                    object,
                                                    created,
                                                    model,
                                                    choices,
                                                    usage,
                                                },
                                            ),
                                        },
                                    },
                                },
                            },
                        },
                    },
                },
            },
        }
    }
}

/// The reply that a body describes: what `response_of` makes of the document
/// that the JSON parser reads, or the parser's error message.
pub open spec fn decode_response(body: Seq<char>) -> Result<ResponseModel, Seq<char>> {
    match json_parse(body) {
        Err(message) => Err(message),
        Ok(document) => response_of(document),
    }
}

/// A failed element fails the whole array of tool calls, with the error of the
/// first such element.
pub proof fn lemma_tool_calls_fail_early(items: Seq<JsonModel>, n: int)
    requires
        0 <= n <= items.len(),
        tool_calls_of(items.take(n)) is Err,
    ensures
        tool_calls_of(items) == tool_calls_of(items.take(n)),
    decreases items.len() - n,
{
    if n < items.len() {
        assert(items.take(n + 1).drop_last() == items.take(n));
        lemma_tool_calls_fail_early(items, n + 1);
    } else {
        assert(items.take(n) == items);
    }
}

/// A failed element fails the whole array of choices, with the error of the
/// first such element.
pub proof fn lemma_response_choices_fail_early(items: Seq<JsonModel>, n: int)
    requires
        0 <= n <= items.len(),
        response_choices_of(items.take(n)) is Err,
    ensures
        response_choices_of(items) == response_choices_of(items.take(n)),
    decreases items.len() - n,
{
    if n < items.len() {
        assert(items.take(n + 1).drop_last() == items.take(n));
        lemma_response_choices_fail_early(items, n + 1);
    } else {
        assert(items.take(n) == items);
    }
}

/// Decodes the tool call that a JSON document describes.
pub fn tool_call_from_json(value: &serde_json::Value) -> (r: Result<ToolCall, ApiError>)
    ensures
        decoded(r, tool_call_of(json_view(*value))),
{
    if !value.is_object() {
        return Err(invalid("tool_calls"));
    }
    let function = match read_object(value, "function") {
        Err(error) => {
            return Err(error);
        },
        Ok(function) => function,
    };
    let name = match read_text(function, "name") {
        Err(error) => {
            return Err(error);
        },
        Ok(name) => name,
    };
    match read_text(function, "arguments") {
        Err(error) => Err(error),
        Ok(arguments) => Ok(ToolCall { function: ToolCallFunction { name, arguments } }),
    }
}

/// Decodes the tool calls that the elements of a JSON array describe.
pub fn tool_calls_from_json(items: &Vec<serde_json::Value>) -> (r: Result<Vec<ToolCall>, ApiError>)
    ensures
        match tool_calls_of(json_views(items@)) {
            Ok(models) => r matches Ok(calls) && tool_call_models(calls@) == models,
            Err(message) => r matches Err(error) && error.message@ == message,
        },
{
    let ghost documents = json_views(items@);
    let mut calls: Vec<ToolCall> = Vec::new();
    let mut i: usize = 0;
    assert(documents.take(0) == Seq::<JsonModel>::empty());
    assert(tool_call_models(calls@) == Seq::<ToolCallModel>::empty());
    while i < items.len()
        invariant
            i <= items@.len(),
            documents == json_views(items@),
            tool_calls_of(documents.take(i as int)) == Ok::<Seq<ToolCallModel>, Seq<char>>(
                tool_call_models(calls@),
            ),
        decreases items@.len() - i,
    {
        let ghost before = tool_call_models(calls@);
        assert(documents.take(i + 1).drop_last() == documents.take(i as int));
        assert(documents.take(i + 1).last() == json_view(items@[i as int]));
        match tool_call_from_json(&items[i]) {
            Err(error) => {
                proof {
                    lemma_tool_calls_fail_early(documents, i + 1);
                }
                return Err(error);
            },
            Ok(call) => {
                calls.push(call);
                assert(tool_call_models(calls@) == before.push(call@));
            },
        }
        i += 1;
    }
    assert(documents.take(i as int) == documents);
    Ok(calls)
}

/// Decodes the message that a JSON object describes.
pub fn message_from_json(value: &serde_json::Value) -> (r: Result<ChatMessage, ApiError>)
    ensures
        decoded(r, message_of(json_view(*value))),
{
    let role = match read_text(value, "role") {
        Err(error) => {
            return Err(error);
        },
        Ok(name) => match ChatMessageRole::from_name(name.as_str()) {
            None => {
                return Err(invalid("role"));
            },
            Some(role) => role,
        },
    };
    let content = match read_text(value, "content") {
        Err(error) => {
            return Err(error);
        },
        Ok(content) => content,
    };
    let tool_calls = match get_optional(value, "tool_calls") {
        None => None,
        Some(found) => match found.as_array() {
            None => {
                return Err(invalid("tool_calls"));
            },
            Some(items) => {
                assert(json_views(items@) == json_view(*found)->Array_0);
                match tool_calls_from_json(items) {
                    Err(error) => {
                        return Err(error);
                    },
                    Ok(calls) => Some(calls),
                }
            },
        },
    };
    Ok(ChatMessage { role, content, tool_calls })
}

/// Decodes the choice that a JSON document describes.
pub fn response_choice_from_json(value: &serde_json::Value) -> (r: Result<
    ChatResponseChoice,
    ApiError,
>)
    ensures
        decoded(r, response_choice_of(json_view(*value))),
{
    if !value.is_object() {
        return Err(invalid("choices"));
    }
    let index = match read_u32(value, "index") {
        Err(error) => {
            return Err(error);
        },
        Ok(index) => index,
    };
    let message = match read_object(value, "message") {
        Err(error) => {
            return Err(error);
        },
        Ok(inner) => match message_from_json(inner) {
            Err(error) => {
                return Err(error);
            },
            Ok(message) => message,
        },
    };
    match read_text(value, "finish_reason") {
        Err(error) => Err(error),
        Ok(name) => match ChatResponseChoiceFinishReason::from_name(name.as_str()) {
            None => Err(invalid("finish_reason")),
            Some(finish_reason) => Ok(ChatResponseChoice { index, message, finish_reason }),
        },
    }
}

/// Decodes the choices that the elements of a JSON array describe.
pub fn response_choices_from_json(items: &Vec<serde_json::Value>) -> (r: Result<
    Vec<ChatResponseChoice>,
    ApiError,
>)
    ensures
        match response_choices_of(json_views(items@)) {
            Ok(models) => r matches Ok(choices) && response_choice_models(choices@) == models,
            Err(message) => r matches Err(error) && error.message@ == message,
        },
{
    let ghost documents = json_views(items@);
    let mut choices: Vec<ChatResponseChoice> = Vec::new();
    let mut i: usize = 0;
    assert(documents.take(0) == Seq::<JsonModel>::empty());
    assert(response_choice_models(choices@) == Seq::<ResponseChoiceModel>::empty());
    while i < items.len()
        invariant
            i <= items@.len(),
            documents == json_views(items@),
            response_choices_of(documents.take(i as int)) == Ok::<
                Seq<ResponseChoiceModel>,
                Seq<char>,
            >(response_choice_models(choices@)),
        decreases items@.len() - i,
    {
        let ghost before = response_choice_models(choices@);
        assert(documents.take(i + 1).drop_last() == documents.take(i as int));
        assert(documents.take(i + 1).last() == json_view(items@[i as int]));
        match response_choice_from_json(&items[i]) {
            Err(error) => {
                proof {
                    lemma_response_choices_fail_early(documents, i + 1);
                }
                return Err(error);
            },
            Ok(choice) => {
                choices.push(choice);
                assert(response_choice_models(choices@) == before.push(choice@));
            },
        }
        i += 1;
    }
    assert(documents.take(i as int) == documents);
    Ok(choices)
}

/// Decodes the reply that a parsed JSON document describes.
pub fn response_from_json(value: &serde_json::Value) -> (r: Result<ChatResponse, ApiError>)
    ensures
        decoded(r, response_of(json_view(*value))),
{
    if !value.is_object() {
        return Err(not_object());
    }
    let id = match read_text(value, "id") {
        Err(error) => {
            return Err(error);
        },
        Ok(id) => id,
    };
    let object = match read_text(value, "object") {
        Err(error) => {
            return Err(error);
        },
        Ok(object) => object,
    };
    let created = match read_u32(value, "created") {
        Err(error) => {
            return Err(error);
        },
        Ok(created) => created,
    };
    let model = match read_text(value, "model") {
        Err(error) => {
            return Err(error);
        },
        Ok(name) => match Model::from_name(name.as_str()) {
            None => {
                return Err(invalid("model"));
            },
            Some(model) => model,
        },
    };
    let choices = match read_array(value, "choices") {
        Err(error) => {
            return Err(error);
        },
        Ok(items) => match response_choices_from_json(items) {
            Err(error) => {
                return Err(error);
            },
            Ok(choices) => choices,
        },
    };
    let usage = match read_object(value, "usage") {
        Err(error) => {
            return Err(error);
        },
        Ok(inner) => match usage_from_json(inner) {
            Err(error) => {
                return Err(error);
            },
            Ok(usage) => usage,
        },
    };
    Ok(ChatResponse { id, object, created, model, choices, usage })
}

/// Decodes the body of a reply to a chat request.
pub fn decode_chat_response(body: &str) -> (r: Result<ChatResponse, ApiError>)
    ensures
        decoded(r, decode_response(body@)),
{
    match parse_json(body) {
        Err(message) => Err(ApiError { message }),
        Ok(value) => response_from_json(&value),
    }
}

} // verus!
