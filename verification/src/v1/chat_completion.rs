//! Chat completions in their earlier shape: plain messages and loose
//! parameters.
use vstd::prelude::*;
use crate::v1::common::{ResponseUsage, Single};
use crate::v1::constants::Model;

verus! {

// -----------------------------------------------------------------------------
// Definitions

/// One message of a conversation.
#[derive(Clone, Debug)]
pub struct ChatMessage {
    pub role: ChatMessageRole,
    pub content: String,
}

/// Who wrote a message.
#[derive(Clone, Copy, Debug, PartialEq, Eq, Structural)]
#[allow(non_camel_case_types)]
pub enum ChatMessageRole {
    assistant,
    user,
}

impl ChatMessageRole {
    /// The name of the role, as it is shown and sent.
    pub open spec fn name(self) -> Seq<char> {
        match self {
            ChatMessageRole::assistant => "assistant"@,
            ChatMessageRole::user => "user"@,
        }
    }

    /// Renders the role as text.
    pub fn to_string(&self) -> (text: String)
        ensures
            text@ == self.name(),
    {
        match self {
            ChatMessageRole::assistant => "assistant".to_string(),
            ChatMessageRole::user => "user".to_string(),
        }
    }
}

// -----------------------------------------------------------------------------
// Request

/// The parameters of a chat completion request. Each may be left out.
#[derive(Debug)]
pub struct ChatCompletionParams {
    pub tools: Option<String>,
    pub temperature: Option<Single>,
    pub max_tokens: Option<u32>,
    pub top_p: Option<Single>,
    pub random_seed: Option<u32>,
    pub safe_prompt: Option<bool>,
}

impl ChatCompletionParams {
    /// Whether no parameter is set.
    pub open spec fn is_default(&self) -> bool {
        &&& self.tools is None
        &&& self.temperature is None
        &&& self.max_tokens is None
        &&& self.top_p is None
        &&& self.random_seed is None
        &&& self.safe_prompt is None
    }
}

impl Default for ChatCompletionParams {
    fn default() -> (r: Self)
        ensures
            r.is_default(),
    {
        Self {
            tools: None,
            temperature: None,
            max_tokens: None,
            top_p: None,
            random_seed: None,
            safe_prompt: None,
        }
    }
}

/// A chat completion request, as it is sent.
#[derive(Debug)]
pub struct ChatCompletionRequest {
    pub messages: Vec<ChatMessage>,
    pub model: Model,
    pub tools: Option<String>,
    pub temperature: Option<Single>,
    pub max_tokens: Option<u32>,
    pub top_p: Option<Single>,
    pub random_seed: Option<u32>,
    pub stream: bool,
    pub safe_prompt: Option<bool>,
}

impl ChatCompletionRequest {
    /// Whether the request carries exactly the given parameters.
    pub open spec fn carries(&self, params: ChatCompletionParams) -> bool {
        &&& self.tools == params.tools
        &&& self.temperature == params.temperature
        &&& self.max_tokens == params.max_tokens
        &&& self.top_p == params.top_p
        &&& self.random_seed == params.random_seed
        &&& self.safe_prompt == params.safe_prompt
    }

    /// Whether the request sets no parameter.
    pub open spec fn carries_nothing(&self) -> bool {
        &&& self.tools is None
        &&& self.temperature is None
        &&& self.max_tokens is None
        &&& self.top_p is None
        &&& self.random_seed is None
        &&& self.safe_prompt is None
    }

    /// Makes a request of a model, a conversation and parameters. Where no
    /// parameters are given none is set.
    pub fn new(
        model: Model,
        messages: Vec<ChatMessage>,
        stream: bool,
        options: Option<ChatCompletionParams>,
    ) -> (r: Self)
        ensures
            r.model == model,
            r.messages == messages,
            r.stream == stream,
            match options {
                Some(params) => r.carries(params),
                None => r.carries_nothing(),
            },
    {
        let ChatCompletionParams { tools, temperature, max_tokens, top_p, random_seed, safe_prompt } =
            match options {
            Some(params) => params,
            None => ChatCompletionParams::default(),
        };

        Self {
            messages,
            model,
            tools,
            temperature,
            max_tokens,
            top_p,
            random_seed,
            stream,
            safe_prompt,
        }
    }
}

// -----------------------------------------------------------------------------
// Response

/// The reply to a chat completion request.
#[derive(Clone, Debug)]
pub struct ChatCompletionResponse {
    pub id: String,
    pub object: String,
    /// Unix timestamp (in seconds).
    pub created: u32,
    pub model: Model,
    pub choices: Vec<ChatCompletionResponseChoice>,
    pub usage: ResponseUsage,
}

/// One of the completions of a reply.
#[derive(Clone, Debug)]
pub struct ChatCompletionResponseChoice {
    pub index: u32,
    pub message: ChatMessage,
    pub finish_reason: String,
}

// -----------------------------------------------------------------------------
// Stream

/// One fragment of a streamed chat completion.
#[derive(Debug)]
pub struct ChatCompletionStreamChunk {
    pub id: String,
    pub object: String,
    /// Unix timestamp (in seconds).
    pub created: u32,
    pub model: Model,
    pub choices: Vec<ChatCompletionStreamChunkChoice>,
}

/// What one fragment adds to one of the parallel completions.
#[derive(Debug)]
pub struct ChatCompletionStreamChunkChoice {
    pub index: u32,
    pub delta: ChatCompletionStreamChunkChoiceDelta,
    pub finish_reason: Option<String>,
}

/// The text added by a fragment, and the role on the first fragment of a
/// message.
#[derive(Debug)]
pub struct ChatCompletionStreamChunkChoiceDelta {
    pub role: Option<ChatMessageRole>,
    pub content: String,
}

} // verus!
