//! The client: its settings, the functions registered with it, and the rules
//! it follows around a request.
use vstd::prelude::*;
use vstd::hash_map::StringHashMap;
use vstd::string::StringExecFns;
use crate::v1::chat::{
    decode_chat_response,
    decode_response,
    ChatMessage,
    ChatParams,
    ChatRequest,
    ChatResponse,
};
use crate::v1::constants::{EmbedModel, Model, API_URL_BASE};
use crate::v1::embedding::{EmbeddingRequest, EmbeddingRequestOptions, EmbeddingResponse};
use crate::v1::error::{ApiError, ClientError};
use crate::v1::http::{
    accept,
    accepted,
    Header,
    HeaderModel,
    HttpOutcome,
    HttpRequest,
    HttpRequestModel,
    MessageOrder,
    Method,
};
use crate::v1::json::decoded;
use crate::v1::model_list::{decode_list, decode_model_list, ModelListResponse};
use crate::v1::stream::{ChatStream, FaultPolicy, Framing, StreamModel};
use crate::v1::tool::{Function, ToolCallModel};

verus! {

/// The number of retries of a client that was given none.
pub const DEFAULT_MAX_RETRIES: u32 = 5;

/// The timeout, in seconds, of a client that was given none.
pub const DEFAULT_TIMEOUT: u32 = 120;

/// The address of the official API.
pub open spec fn default_endpoint() -> Seq<char> {
    "https://api.mistral.ai/v1"@
}

/// What a client says it is, in the `User-Agent` header.
pub open spec fn user_agent() -> Seq<char> {
    "ivangabriele/mistralai-client-rs/0.1.0"@
}

/// The media type of JSON, asked for in plain requests and used for bodies.
pub open spec fn json_media_type() -> Seq<char> {
    "application/json"@
}

/// The media type of an event stream, asked for in streamed requests.
pub open spec fn event_stream_media_type() -> Seq<char> {
    "text/event-stream"@
}

/// The headers that a client puts on a request: the key as a bearer token,
/// the media type asked for, the media type of the body, and the client's name.
pub open spec fn headers_of(api_key: Seq<char>, accept: Seq<char>) -> Seq<HeaderModel> {
    seq![
        HeaderModel { name: "Authorization"@, value: "Bearer "@ + api_key },
        HeaderModel { name: "Accept"@, value: accept },
        HeaderModel { name: "Content-Type"@, value: json_media_type() },
        HeaderModel { name: "User-Agent"@, value: user_agent() },
    ]
}

/// A request with the client's headers behind its own.
pub open spec fn with_headers(
    request: HttpRequestModel,
    api_key: Seq<char>,
    accept: Seq<char>,
) -> HttpRequestModel {
    HttpRequestModel { headers: request.headers + headers_of(api_key, accept), ..request }
}

/// Whether a result is what a reply amounts to once its body is decoded: the
/// error of a reply that is refused, else what `decode` makes of the body, its
/// error message carried over.
pub open spec fn concluded<T, D: FnOnce(String) -> Result<T, String>>(
    r: Result<T, ApiError>,
    outcome: HttpOutcome,
    order: MessageOrder,
    decode: D,
) -> bool {
    match accepted(outcome, order) {
        Err(message) => r matches Err(error) && error.message@ == message,
        Ok(text) => exists|body: String, decoded: Result<T, String>|
            {
                &&& body@ == text
                &&& #[trigger] decode.ensures((body,), decoded)
                &&& match decoded {
                    Ok(data) => r == Ok::<T, ApiError>(data),
                    Err(message) => r matches Err(error) && error.message == message,
                }
            },
    }
}

/// Whether a result is what a reply amounts to once its body is read by the
/// crate's own decoder: the error of a reply that is refused, else what
/// `reading` makes of the body.
pub open spec fn answered<T: View>(
    r: Result<T, ApiError>,
    outcome: HttpOutcome,
    order: MessageOrder,
    reading: spec_fn(Seq<char>) -> Result<T::V, Seq<char>>,
) -> bool {
    match accepted(outcome, order) {
        Err(message) => r matches Err(error) && error.message@ == message,
        Ok(text) => decoded(r, reading(text)),
    }
}

/// A client of the API. `R` is what the registered functions hand back.
#[verifier::reject_recursive_types(R)]
pub struct Client<R> {
    pub api_key: String,
    pub endpoint: String,
    pub max_retries: u32,
    pub timeout: u32,
    /// The registered functions, by name.
    pub functions: StringHashMap<Box<dyn Function<R>>>,
    /// What the last function call handed back, until it is taken.
    pub last_function_call_result: Option<R>,
}

/// The call that a response asks for: the first tool call of its first choice.
pub open spec fn requested_call(response: ChatResponse) -> Option<ToolCallModel> {
    if response.choices@.len() == 0 {
        None
    } else {
        match response.choices@[0].message.tool_calls {
            Some(calls) => if calls@.len() == 0 {
                None
            } else {
                Some(calls@[0]@)
            },
            None => None,
        }
    }
}

impl<R> Client<R> {
    /// Whether two clients have the same settings.
    pub open spec fn same_settings(&self, other: &Self) -> bool {
        &&& self.api_key == other.api_key
        &&& self.endpoint == other.endpoint
        &&& self.max_retries == other.max_retries
        &&& self.timeout == other.timeout
    }

    /// Sets a client up. The key is the one given, or else the one found in
    /// the environment, which the caller looks up; without either there is no
    /// client. The other settings have defaults: the official address, 5
    /// retries, 120 seconds. A new client has no function registered and no
    /// result to hand out.
    pub fn new(
        api_key: Option<String>,
        endpoint: Option<String>,
        max_retries: Option<u32>,
        timeout: Option<u32>,
        env_api_key: Option<String>,
    ) -> (r: Result<Self, ClientError>)
        ensures
            (api_key is None && env_api_key is None) ==> r == Err::<Self, ClientError>(
                ClientError::MissingApiKey,
            ),
            !(api_key is None && env_api_key is None) ==> r is Ok,
            r matches Ok(client) ==> {
                &&& client.api_key@ == (match api_key {
                    Some(key) => key@,
                    None => env_api_key->0@,
                })
                &&& client.endpoint@ == (match endpoint {
                    Some(address) => address@,
                    None => default_endpoint(),
                })
                &&& client.max_retries == (match max_retries {
                    Some(n) => n,
                    None => DEFAULT_MAX_RETRIES,
                })
                &&& client.timeout == (match timeout {
                    Some(n) => n,
                    None => DEFAULT_TIMEOUT,
                })
                &&& client.functions@ == Map::<Seq<char>, Box<dyn Function<R>>>::empty()
                &&& client.last_function_call_result is None
            },
    {
        let api_key = match api_key {
            Some(api_key_from_param) => api_key_from_param,
            None => match env_api_key {
                Some(api_key_from_env) => api_key_from_env,
                None => {
                    return Err(ClientError::MissingApiKey);
                },
            },
        };
        let endpoint = match endpoint {
            Some(address) => address,
            None => API_URL_BASE.to_string(),
        };
        let max_retries = match max_retries {
            Some(n) => n,
            None => DEFAULT_MAX_RETRIES,
        };
        let timeout = match timeout {
            Some(n) => n,
            None => DEFAULT_TIMEOUT,
        };

        Ok(
            Self {
                api_key,
                endpoint,
                max_retries,
                timeout,
                functions: StringHashMap::new(),
                last_function_call_result: None,
            },
        )
    }

    /// Whether `after` is this client once it has seen to the function call
    /// that a response asks for. Settings and registered functions are the same.
    /// Where the response asks for a function that is registered, the last
    /// result is one that this function gives for the arguments of the call;
    /// in any other case there is no last result.
    pub open spec fn dispatched(&self, response: ChatResponse, after: Self) -> bool {
        &&& after.functions@ == self.functions@
        &&& after.same_settings(self)
        &&& match requested_call(response) {
            Some(call) => if self.functions@.contains_key(call.name) {
                after.last_function_call_result matches Some(result)
                    && self.functions@[call.name].gives(call.arguments, result)
            } else {
                after.last_function_call_result is None
            },
            None => after.last_function_call_result is None,
        }
    }

    /// The last write wins: what a client keeps after seeing to two responses,
    /// one after the other, is what it would keep after the second alone.
    pub proof fn lemma_last_write_wins(
        &self,
        first: ChatResponse,
        between: Self,
        second: ChatResponse,
        after: Self,
    )
        requires
            self.dispatched(first, between),
            between.dispatched(second, after),
        ensures
            self.dispatched(second, after),
    {
    }

    /// Whether `after` is this client with nothing changed.
    pub open spec fn untouched(&self, after: Self) -> bool {
        &&& after.functions@ == self.functions@
        &&& after.same_settings(self)
        &&& after.last_function_call_result == self.last_function_call_result
    }

    /// The address of a path of the API.
    pub open spec fn url_of(&self, path: Seq<char>) -> Seq<char> {
        self.endpoint@ + path
    }

    /// The request that the client makes of a method, a path and the media
    /// type it asks for.
    pub open spec fn request_of(&self, method: Method, path: Seq<char>, accept: Seq<char>) -> HttpRequestModel {
        HttpRequestModel {
            method,
            url: self.url_of(path),
            headers: headers_of(self.api_key@, accept),
        }
    }

    /// The address of a path of the API.
    pub fn url(&self, path: &str) -> (r: String)
        ensures
            r@ == self.url_of(path@),
    {
        self.endpoint.clone().concat(path)
    }

    /// Puts the client's headers on a request.
    fn build_request(&self, request: HttpRequest, accept: &str) -> (r: HttpRequest)
        ensures
            r@ == with_headers(request@, self.api_key@, accept@),
    {
        let HttpRequest { method, url, mut headers } = request;
        let ghost before = headers@.map_values(|header: Header| header@);
        headers.push(
            Header {
                name: "Authorization".to_string(),
                value: String::from_str("Bearer ").concat(self.api_key.as_str()),
            },
        );
        headers.push(Header { name: "Accept".to_string(), value: accept.to_string() });
        headers.push(
            Header { name: "Content-Type".to_string(), value: "application/json".to_string() },
        );
        headers.push(
            Header { name: "User-Agent".to_string(), value: "ivangabriele/mistralai-client-rs/0.1.0".to_string() },
        );
        assert(headers@.map_values(|header: Header| header@) == before + headers_of(
            self.api_key@,
            accept@,
        ));
        HttpRequest { method, url, headers }
    }

    /// Puts the client's headers on a request that is sent and waited for.
    pub fn build_request_sync(&self, request: HttpRequest) -> (r: HttpRequest)
        ensures
            r@ == with_headers(request@, self.api_key@, json_media_type()),
    {
        self.build_request(request, "application/json")
    }

    /// Puts the client's headers on a request that is sent without waiting.
    pub fn build_request_async(&self, request: HttpRequest) -> (r: HttpRequest)
        ensures
            r@ == with_headers(request@, self.api_key@, json_media_type()),
    {
        self.build_request(request, "application/json")
    }

    /// Puts the client's headers on a request whose reply is streamed.
    pub fn build_request_stream(&self, request: HttpRequest) -> (r: HttpRequest)
        ensures
            r@ == with_headers(request@, self.api_key@, event_stream_media_type()),
    {
        self.build_request(request, "text/event-stream")
    }

    /// The request for a path of the API, ready to be sent but for its body:
    /// the address, and the client's headers, which ask for an event stream
    /// where the reply is to be streamed and for JSON where it is not.
    pub fn request(&self, method: Method, path: &str, streamed: bool) -> (r: HttpRequest)
        ensures
            r@ == self.request_of(
                method,
                path@,
                if streamed {
                    event_stream_media_type()
                } else {
                    json_media_type()
                },
            ),
    {
        let bare = HttpRequest { method, url: self.url(path), headers: Vec::new() };
        assert(bare@.headers == Seq::<HeaderModel>::empty());
        let request = if streamed {
            self.build_request_stream(bare)
        } else {
            self.build_request_sync(bare)
        };
        assert(request@.headers == headers_of(
            self.api_key@,
            if streamed {
                event_stream_media_type()
            } else {
                json_media_type()
            },
        ));
        request
    }

    /// The error for a reply whose body could not be decoded.
    pub fn to_api_error(&self, message: String) -> (error: ApiError)
        ensures
            error.message == message,
    {
        ApiError { message }
    }

    /// Asks for a path of the API and judges what comes back. `send` sends the
    /// request and says what came of it. The result is the body of a successful
    /// reply, or the error that the outcome amounts to, status first.
    pub fn get_sync<S: FnOnce(HttpRequest) -> HttpOutcome>(&self, path: &str, send: S) -> (r: Result<
        String,
        ApiError,
    >)
        requires
            forall|request: HttpRequest|
                request@ == self.request_of(Method::Get, path@, json_media_type())
                    ==> #[trigger] send.requires((request,)),
        ensures
            exists|request: HttpRequest, outcome: HttpOutcome|
                {
                    &&& request@ == self.request_of(Method::Get, path@, json_media_type())
                    &&& #[trigger] send.ensures((request,), outcome)
                    &&& match accepted(outcome, MessageOrder::StatusFirst) {
                        Ok(body) => r matches Ok(text) && text@ == body,
                        Err(message) => r matches Err(error) && error.message@ == message,
                    }
                },
    {
        let request = self.request(Method::Get, path, false);
        let outcome = send(request);
        accept(outcome, MessageOrder::StatusFirst)
    }

    /// Posts a body to a path of the API and judges what comes back. `send`
    /// sends the request with its body and says what came of it. The result is
    /// the body of a successful reply, or the error that the outcome amounts to,
    /// body first.
    pub fn post_sync<B, S: FnOnce(HttpRequest, B) -> HttpOutcome>(
        &self,
        path: &str,
        params: B,
        send: S,
    ) -> (r: Result<String, ApiError>)
        requires
            forall|request: HttpRequest|
                request@ == self.request_of(Method::Post, path@, json_media_type())
                    ==> #[trigger] send.requires((request, params)),
        ensures
            exists|request: HttpRequest, outcome: HttpOutcome|
                {
                    &&& request@ == self.request_of(Method::Post, path@, json_media_type())
                    &&& #[trigger] send.ensures((request, params), outcome)
                    &&& match accepted(outcome, MessageOrder::BodyFirst) {
                        Ok(body) => r matches Ok(text) && text@ == body,
                        Err(message) => r matches Err(error) && error.message@ == message,
                    }
                },
    {
        let request = self.request(Method::Post, path, false);
        let outcome = send(request, params);
        accept(outcome, MessageOrder::BodyFirst)
    }

    /// Sends a chat request and hands out the reply. `send` sends the request
    /// and says what came of it. Where the reply is read, the client sees to
    /// the function call that it asks for before handing it out. Otherwise the
    /// result is the error of the reply, body first, or the error of reading
    /// it, and the client is as it was.
    pub fn chat<S>(
        &mut self,
        model: Model,
        messages: Vec<ChatMessage>,
        options: Option<ChatParams>,
        send: S,
    ) -> (r: Result<ChatResponse, ApiError>) where
        S: FnOnce(HttpRequest, ChatRequest) -> HttpOutcome,

        requires
            forall|request: HttpRequest, body: ChatRequest|
                request@ == old(self).request_of(
                    Method::Post,
                    "/chat/completions"@,
                    json_media_type(),
                ) && body.describes(model, messages, false, options) ==> #[trigger] send.requires(
                    (request, body),
                ),
        ensures
            exists|request: HttpRequest, body: ChatRequest, outcome: HttpOutcome|
                {
                    &&& request@ == old(self).request_of(
                        Method::Post,
                        "/chat/completions"@,
                        json_media_type(),
                    )
                    &&& body.describes(model, messages, false, options)
                    &&& #[trigger] send.ensures((request, body), outcome)
                    &&& answered(
                        r,
                        outcome,
                        MessageOrder::BodyFirst,
                        |text: Seq<char>| decode_response(text),
                    )
                },
            match r {
                Ok(response) => old(self).dispatched(response, *final(self)),
                Err(_) => old(self).untouched(*final(self)),
            },
    {
        let request = ChatRequest::new(model, messages, false, options);

        let body = match self.post_sync("/chat/completions", request, send) {
            Ok(body) => body,
            Err(error) => {
                return Err(error);
            },
        };
        match decode_chat_response(body.as_str()) {
            Ok(data) => {
                self.call_function_if_any(&data);

                Ok(data)
            },
            Err(error) => Err(error),
        }
    }

    /// Opens a streamed chat completion. `send` sends the request and says
    /// what came of it, before any of the stream is read. The stream comes to
    /// be, active, where the server answered with a success status; the caller
    /// then hands it each delivery of bytes. Otherwise the call fails with the
    /// error that the outcome amounts to, status first, and there is no stream.
    pub fn chat_stream<S>(
        &self,
        model: Model,
        messages: Vec<ChatMessage>,
        options: Option<ChatParams>,
        policy: FaultPolicy,
        framing: Framing,
        send: S,
    ) -> (r: Result<ChatStream, ApiError>) where
        S: FnOnce(HttpRequest, ChatRequest) -> HttpOutcome,

        requires
            forall|request: HttpRequest, body: ChatRequest|
                request@ == self.request_of(
                    Method::Post,
                    "/chat/completions"@,
                    event_stream_media_type(),
                ) && body.describes(model, messages, true, options) ==> #[trigger] send.requires(
                    (request, body),
                ),
        ensures
            exists|request: HttpRequest, body: ChatRequest, outcome: HttpOutcome|
                {
                    &&& request@ == self.request_of(
                        Method::Post,
                        "/chat/completions"@,
                        event_stream_media_type(),
                    )
                    &&& body.describes(model, messages, true, options)
                    &&& #[trigger] send.ensures((request, body), outcome)
                    &&& match accepted(outcome, MessageOrder::StatusFirst) {
                        Ok(_) => r matches Ok(stream) && stream@ == StreamModel::opened(
                            policy,
                            framing,
                        ),
                        Err(message) => r matches Err(error) && error.message@ == message,
                    }
                },
    {
        let body = ChatRequest::new(model, messages, true, options);
        let request = self.request(Method::Post, "/chat/completions", true);
        let outcome = send(request, body);
        ChatStream::open(outcome, policy, framing)
    }

    /// Sends an embedding request and hands out the reply. `send` sends the
    /// request and says what came of it; `decode` reads the body of a
    /// successful reply.
    pub fn embeddings<S, D>(
        &self,
        model: EmbedModel,
        input: Vec<String>,
        options: Option<EmbeddingRequestOptions>,
        send: S,
        decode: D,
    ) -> (r: Result<EmbeddingResponse, ApiError>) where
        S: FnOnce(HttpRequest, EmbeddingRequest) -> HttpOutcome,
        D: FnOnce(String) -> Result<EmbeddingResponse, String>,

        requires
            forall|request: HttpRequest, body: EmbeddingRequest|
                request@ == self.request_of(Method::Post, "/embeddings"@, json_media_type())
                    && body.describes(model, input, options) ==> #[trigger] send.requires(
                    (request, body),
                ),
            forall|text: String| #[trigger] decode.requires((text,)),
        ensures
            exists|request: HttpRequest, body: EmbeddingRequest, outcome: HttpOutcome|
                {
                    &&& request@ == self.request_of(Method::Post, "/embeddings"@, json_media_type())
                    &&& body.describes(model, input, options)
                    &&& #[trigger] send.ensures((request, body), outcome)
                    &&& concluded(r, outcome, MessageOrder::BodyFirst, decode)
                },
    {
        let request = EmbeddingRequest::new(model, input, options);

        let body = match self.post_sync("/embeddings", request, send) {
            Ok(body) => body,
            Err(error) => {
                return Err(error);
            },
        };
        match decode(body) {
            Ok(data) => Ok(data),
            Err(message) => Err(self.to_api_error(message)),
        }
    }

    /// Asks for the list of models and hands it out. `send` sends the request
    /// and says what came of it. The result is the list that the body of a
    /// successful reply describes, or the error of the reply, status first, or
    /// the error of reading it.
    pub fn list_models<S>(&self, send: S) -> (r: Result<ModelListResponse, ApiError>) where
        S: FnOnce(HttpRequest) -> HttpOutcome,

        requires
            forall|request: HttpRequest|
                request@ == self.request_of(Method::Get, "/models"@, json_media_type())
                    ==> #[trigger] send.requires((request,)),
        ensures
            exists|request: HttpRequest, outcome: HttpOutcome|
                {
                    &&& request@ == self.request_of(Method::Get, "/models"@, json_media_type())
                    &&& #[trigger] send.ensures((request,), outcome)
                    &&& answered(
                        r,
                        outcome,
                        MessageOrder::StatusFirst,
                        |text: Seq<char>| decode_list(text),
                    )
                },
    {
        let body = match self.get_sync("/models", send) {
            Ok(body) => body,
            Err(error) => {
                return Err(error);
            },
        };
        decode_model_list(body.as_str())
    }

    /// Registers a function under a name. A function registered before under
    /// that name is replaced. Afterwards the name is registered, and so is
    /// every name that was, and no other.
    pub fn register_function(&mut self, name: String, function: Box<dyn Function<R>>)
        ensures
            final(self).functions@ == old(self).functions@.insert(name@, function),
            final(self).functions@.contains_key(name@),
            forall|other: Seq<char>|
                other != name@ ==> (#[trigger] final(self).functions@.contains_key(other)
                    <==> old(self).functions@.contains_key(other)),
            final(self).last_function_call_result == old(self).last_function_call_result,
            final(self).same_settings(old(self)),
    {
        proof {
            vstd::map::axiom_map_insert_domain(self.functions@, name@, function);
        }
        self.functions.insert(name, function);
    }

    /// Hands out what the last function call handed back, once: the result is
    /// gone from the client afterwards.
    pub fn get_last_function_call_result(&mut self) -> (r: Option<R>)
        ensures
            r == old(self).last_function_call_result,
            final(self).last_function_call_result is None,
            final(self).functions@ == old(self).functions@,
            final(self).same_settings(old(self)),
    {
        self.last_function_call_result.take()
    }

    /// Runs the function that a response asks for, if it asks for one and one
    /// is registered under that name, and keeps what it hands back. Any earlier
    /// result is gone afterwards, whether a function ran or not.
    pub fn call_function_if_any(&mut self, response: &ChatResponse)
        ensures
            old(self).dispatched(*response, *final(self)),
    {
        let next_result = if response.choices.len() == 0 {
            None
        } else {
            match &response.choices[0].message.tool_calls {
                Some(tool_calls) => if tool_calls.len() == 0 {
                    None
                } else {
                    let first_tool_call = &tool_calls[0];
                    match self.functions.get(first_tool_call.function.name.as_str()) {
                        Some(function) => Some(
                            function.execute(first_tool_call.function.arguments.clone()),
                        ),
                        None => None,
                    }
                },
                None => None,
            }
        };

        self.last_function_call_result = next_result;
    }
}

} // verus!
