use mistralai_client::v1::chat::{
    ChatMessage, ChatMessageRole, ChatParams, ChatRequest, ChatResponseChoiceFinishReason,
};
use mistralai_client::v1::stream::{FaultPolicy, Framing, StreamState};
use mistralai_client::v1::client::Client;
use mistralai_client::v1::common::{ResponseUsage, Single};
use mistralai_client::v1::constants::{EmbedModel, Model};
use mistralai_client::v1::embedding::{
    EmbeddingRequest, EmbeddingResponse, EmbeddingResponseDataItem,
};
use mistralai_client::v1::error::ClientError;
use mistralai_client::v1::http::{HttpOutcome, HttpReply, HttpRequest, Method};
use mistralai_client::v1::tool::{
    Function, Tool, ToolChoice, ToolFunctionParameter, ToolFunctionParameterType,
};

const CHAT_BODY: &str = r#"{"id":"cmpl-e5cc70bb28c444948073e77776eb30ef","object":"chat.completion","created":1702256327,"model":"open-mistral-7b","choices":[{"index":0,"message":{"role":"assistant","content":"Tower. The Eiffel Tower is a famous landmark in Paris, France."},"finish_reason":"stop","logprobs":null}],"usage":{"prompt_tokens":14,"completion_tokens":17,"total_tokens":31}}"#;

const TOOL_BODY: &str = r#"{"id":"cmpl-2","object":"chat.completion","created":1702256328,"model":"mistral-small-latest","choices":[{"index":0,"message":{"role":"assistant","content":"","tool_calls":[{"function":{"name":"get_city_temperature","arguments":"{\"city\": \"Paris\"}"}}]},"finish_reason":"tool_calls"}],"usage":{"prompt_tokens":92,"completion_tokens":23,"total_tokens":115}}"#;

const MODELS_BODY: &str = r#"{"object":"list","data":[{"id":"open-mistral-7b","object":"model","created":1703186988,"owned_by":"mistralai","root":null,"parent":null,"permission":[{"id":"modelperm-1","object":"model_permission","created":1703186988,"allow_create_engine":false,"allow_sampling":true,"allow_logprobs":false,"allow_search_indices":false,"allow_view":true,"allow_fine_tuning":false,"organization":"*","group":null,"is_blocking":false}]},{"id":"mistral-embed","object":"model","created":1703186989,"owned_by":"mistralai","permission":[]}]}"#;

const EMBEDDINGS_BODY: &str = r#"{"id":"embd-1","object":"list","model":"mistral-embed","data":[{"object":"embedding","embedding":[0.5,-0.25,1.0],"index":0},{"object":"embedding","embedding":[0.0,2.0,-1.5],"index":1}],"usage":{"prompt_tokens":15,"completion_tokens":0,"total_tokens":15}}"#;

fn client() -> Client<String> {
    Client::new(Some("secret".to_string()), None, None, None, None).unwrap()
}

fn replied(status: u16, status_text: &str, body: &str) -> HttpOutcome {
    HttpOutcome::Replied(HttpReply {
        status,
        status_text: status_text.to_string(),
        body: body.to_string(),
    })
}

fn ok(body: &str) -> HttpOutcome {
    replied(200, "200 OK", body)
}

fn header<'a>(request: &'a HttpRequest, name: &str) -> Option<&'a str> {
    request.headers.iter().find(|h| h.name == name).map(|h| h.value.as_str())
}

fn decode_embeddings(body: String) -> Result<EmbeddingResponse, String> {
    let value: serde_json::Value = serde_json::from_str(&body).map_err(|e| e.to_string())?;
    let mut data = Vec::new();
    for item in value["data"].as_array().ok_or("missing field `data`".to_string())? {
        let mut embedding = Vec::new();
        for number in item["embedding"].as_array().ok_or("missing field `embedding`".to_string())? {
            let x = number.as_f64().ok_or("invalid number".to_string())?;
            embedding.push(Single { bits: (x as f32).to_bits() });
        }
        data.push(EmbeddingResponseDataItem {
            index: item["index"].as_u64().ok_or("missing field `index`".to_string())? as u32,
            embedding,
            object: item["object"].as_str().ok_or("missing field `object`".to_string())?.to_string(),
        });
    }
    Ok(EmbeddingResponse {
        id: value["id"].as_str().ok_or("missing field `id`".to_string())?.to_string(),
        object: value["object"].as_str().ok_or("missing field `object`".to_string())?.to_string(),
        model: EmbedModel::from_name(value["model"].as_str().unwrap_or(""))
            .ok_or("unknown model".to_string())?,
        data,
        usage: ResponseUsage {
            prompt_tokens: value["usage"]["prompt_tokens"].as_u64().unwrap_or(0) as u32,
            completion_tokens: value["usage"]["completion_tokens"].as_u64().unwrap_or(0) as u32,
            total_tokens: value["usage"]["total_tokens"].as_u64().unwrap_or(0) as u32,
        },
    })
}

struct CityTemperature;

impl Function<String> for CityTemperature {
    fn execute(&self, arguments: String) -> String {
        format!("20 degrees for {}", arguments)
    }
}

struct Fixed(&'static str);

impl Function<String> for Fixed {
    fn execute(&self, _arguments: String) -> String {
        self.0.to_string()
    }
}

// --- setting a client up ------------------------------------------------------

#[test]
fn test_client_new_with_none_params() {
    let client: Client<String> =
        Client::new(None, None, None, None, Some("test_api_key_from_env".to_string())).unwrap();

    assert_eq!(client.api_key, "test_api_key_from_env".to_string());
    assert_eq!(client.endpoint, "https://api.mistral.ai/v1".to_string());
    assert_eq!(client.max_retries, 5);
    assert_eq!(client.timeout, 120);
}

#[test]
fn test_client_new_with_all_params() {
    let api_key = Some("test_api_key_from_param".to_string());
    let endpoint = Some("https://example.org".to_string());
    let max_retries = Some(10);
    let timeout = Some(20);

    let client: Client<String> =
        Client::new(api_key.clone(), endpoint.clone(), max_retries.clone(), timeout.clone(), None)
            .unwrap();

    assert_eq!(client.api_key, api_key.unwrap());
    assert_eq!(client.endpoint, endpoint.unwrap());
    assert_eq!(client.max_retries, max_retries.unwrap());
    assert_eq!(client.timeout, timeout.unwrap());
}

#[test]
fn test_client_new_with_api_key_as_both_env_and_param() {
    let api_key = Some("test_api_key_from_param".to_string());
    let endpoint = Some("https://example.org".to_string());
    let max_retries = Some(10);
    let timeout = Some(20);

    let client: Client<String> = Client::new(
        api_key.clone(),
        endpoint.clone(),
        max_retries.clone(),
        timeout.clone(),
        Some("test_api_key_from_env".to_string()),
    )
    .unwrap();

    assert_eq!(client.api_key, api_key.unwrap());
    assert_eq!(client.endpoint, endpoint.unwrap());
    assert_eq!(client.max_retries, max_retries.unwrap());
    assert_eq!(client.timeout, timeout.unwrap());
}

#[test]
fn test_client_new_with_missing_api_key() {
    let call = || Client::<String>::new(None, None, None, None, None);

    match call() {
        Ok(_) => panic!("Expected `ClientError::MissingApiKey` but got Ok.`"),
        Err(error) => assert_eq!(error, ClientError::MissingApiKey),
    }
}

#[test]
fn a_new_client_has_no_result_to_hand_out() {
    let mut client = client();
    assert!(client.get_last_function_call_result().is_none());
    assert!(client.functions.is_empty());
}

// --- requests -----------------------------------------------------------------

#[test]
fn requests_are_addressed_and_signed() {
    let client: Client<String> = Client::new(
        Some("k-123".to_string()),
        Some("https://example.org/v1".to_string()),
        None,
        None,
        None,
    )
    .unwrap();
    assert_eq!(client.url("/models"), "https://example.org/v1/models");

    let bare = HttpRequest { method: Method::Get, url: client.url("/models"), headers: Vec::new() };
    let plain = client.build_request_sync(bare.clone());
    assert_eq!(plain.method, Method::Get);
    assert_eq!(plain.url, "https://example.org/v1/models");
    assert_eq!(plain.headers.len(), 4);
    assert_eq!(header(&plain, "Authorization"), Some("Bearer k-123"));
    assert_eq!(header(&plain, "Accept"), Some("application/json"));
    assert_eq!(header(&plain, "Content-Type"), Some("application/json"));
    assert_eq!(header(&plain, "User-Agent"), Some("ivangabriele/mistralai-client-rs/0.1.0"));

    let later = client.build_request_async(bare.clone());
    assert_eq!(header(&later, "Accept"), Some("application/json"));
    assert_eq!(header(&later, "Authorization"), Some("Bearer k-123"));

    let streamed = client.build_request_stream(bare);
    assert_eq!(header(&streamed, "Accept"), Some("text/event-stream"));
    assert_eq!(header(&streamed, "Content-Type"), Some("application/json"));
    assert_eq!(header(&streamed, "Authorization"), Some("Bearer k-123"));
}

#[test]
fn a_request_is_made_of_a_method_a_path_and_the_kind_of_reply() {
    let client = client();
    let plain = client.request(Method::Get, "/models", false);
    assert_eq!(plain.method, Method::Get);
    assert_eq!(plain.url, "https://api.mistral.ai/v1/models");
    assert_eq!(plain.headers.len(), 4);
    assert_eq!(header(&plain, "Accept"), Some("application/json"));
    assert_eq!(header(&plain, "Authorization"), Some("Bearer secret"));

    let streamed = client.request(Method::Post, "/chat/completions", true);
    assert_eq!(streamed.method, Method::Post);
    assert_eq!(streamed.url, "https://api.mistral.ai/v1/chat/completions");
    assert_eq!(streamed.headers.len(), 4);
    assert_eq!(header(&streamed, "Accept"), Some("text/event-stream"));
    assert_eq!(header(&streamed, "User-Agent"), Some("ivangabriele/mistralai-client-rs/0.1.0"));
}

#[test]
fn headers_already_on_a_request_stay_in_front() {
    let client = client();
    let mut request =
        HttpRequest { method: Method::Post, url: client.url("/x"), headers: Vec::new() };
    request.headers.push(mistralai_client::v1::http::Header {
        name: "X-Trace".to_string(),
        value: "1".to_string(),
    });
    let built = client.build_request_sync(request);
    assert_eq!(built.headers.len(), 5);
    assert_eq!(built.headers[0].name, "X-Trace");
    assert_eq!(built.headers[1].name, "Authorization");
    assert_eq!(built.headers[4].name, "User-Agent");
}

// --- chat ---------------------------------------------------------------------

#[test]
fn test_client_chat() {
    let mut client = client();

    let model = Model::OpenMistral7b;
    let messages = vec![ChatMessage::new_user_message(
        "Just guess the next word: \"Eiffel ...\"?",
    )];
    let options = ChatParams {
        temperature: Single { bits: 0.0f32.to_bits() },
        random_seed: Some(42),
        ..Default::default()
    };

    let response = client
        .chat(model, messages, Some(options), |request: HttpRequest, body: ChatRequest| {
            assert_eq!(request.method, Method::Post);
            assert_eq!(request.url, "https://api.mistral.ai/v1/chat/completions");
            assert_eq!(header(&request, "Accept"), Some("application/json"));
            assert_eq!(header(&request, "Authorization"), Some("Bearer secret"));
            assert_eq!(body.model, Model::OpenMistral7b);
            assert!(!body.stream);
            assert_eq!(body.random_seed, Some(42));
            assert_eq!(body.temperature.bits, 0);
            assert_eq!(body.messages.len(), 1);
            assert_eq!(body.messages[0].content, "Just guess the next word: \"Eiffel ...\"?");
            ok(CHAT_BODY)
        })
        .unwrap();

    assert_eq!(response.model, Model::OpenMistral7b);
    assert_eq!(response.object, "chat.completion".to_string());
    assert_eq!(response.choices.len(), 1);
    assert_eq!(response.choices[0].index, 0);
    assert_eq!(response.choices[0].message.role.clone(), ChatMessageRole::Assistant);
    assert_eq!(
        response.choices[0].message.content.clone(),
        "Tower. The Eiffel Tower is a famous landmark in Paris, France.".to_string()
    );
    assert_eq!(response.choices[0].finish_reason.clone(), ChatResponseChoiceFinishReason::Stop);
    assert!(response.usage.prompt_tokens > 0);
    assert!(response.usage.completion_tokens > 0);
    assert!(response.usage.total_tokens > 0);
}

#[test]
fn test_client_chat_with_function_calling() {
    let tools = vec![Tool::new(
        "get_city_temperature".to_string(),
        "Get the current temperature in a city.".to_string(),
        vec![ToolFunctionParameter::new(
            "city".to_string(),
            "The name of the city.".to_string(),
            ToolFunctionParameterType::String,
        )],
    )];

    let mut client = client();

    let model = Model::MistralSmallLatest;
    let messages = vec![ChatMessage::new_user_message(
        "What's the current temperature in Paris?",
    )];
    let options = ChatParams {
        temperature: Single { bits: 0.0f32.to_bits() },
        random_seed: Some(42),
        tool_choice: Some(ToolChoice::Auto),
        tools: Some(tools),
        ..Default::default()
    };

    let response = client
        .chat(model, messages, Some(options), |_request: HttpRequest, body: ChatRequest| {
            assert_eq!(body.tool_choice, Some(ToolChoice::Auto));
            assert_eq!(body.tools.as_ref().map(|tools| tools.len()), Some(1));
            ok(TOOL_BODY)
        })
        .unwrap();

    assert_eq!(response.model, Model::MistralSmallLatest);
    assert_eq!(response.object, "chat.completion".to_string());
    assert_eq!(response.choices.len(), 1);
    assert_eq!(response.choices[0].index, 0);
    assert_eq!(response.choices[0].message.role.clone(), ChatMessageRole::Assistant);
    assert_eq!(response.choices[0].message.content.clone(), "".to_string());
    assert_eq!(
        response.choices[0].finish_reason.clone(),
        ChatResponseChoiceFinishReason::ToolCalls
    );
    assert!(response.usage.prompt_tokens > 0);
    assert!(response.usage.completion_tokens > 0);
    assert!(response.usage.total_tokens > 0);
}

#[test]
fn test_model_constant() {
    let models = vec![
        Model::OpenMistral7b,
        Model::OpenMixtral8x7b,
        Model::OpenMixtral8x22b,
        Model::MistralTiny,
        Model::MistralSmallLatest,
        Model::MistralMediumLatest,
        Model::MistralLargeLatest,
        Model::CodestralLatest,
    ];

    let mut client = client();

    let messages = vec![ChatMessage::new_user_message("A number between 0 and 100?")];
    let options = ChatParams {
        temperature: Single { bits: 0.0f32.to_bits() },
        random_seed: Some(42),
        ..Default::default()
    };

    for model in models {
        let response = client
            .chat(
                model.clone(),
                messages.clone(),
                Some(options.clone()),
                |_request: HttpRequest, body: ChatRequest| {
                    ok(&CHAT_BODY.replace("open-mistral-7b", body.model.as_str()))
                },
            )
            .unwrap();

        assert_eq!(response.model, model);
        assert_eq!(response.object, "chat.completion".to_string());
        assert_eq!(response.choices.len(), 1);
        assert_eq!(response.choices[0].index, 0);
        assert!(response.choices[0].message.content.len() > 0);
    }
}

#[test]
fn test_chat_completion() {
    let mut client = client();

    let model = Model::OpenMistral7b;
    let messages = vec![ChatMessage {
        role: ChatMessageRole::User,
        content: "Just guess the next word: \"Eiffel ...\"?".to_string(),
        tool_calls: None,
    }];
    let options = ChatParams {
        temperature: Single { bits: 0.0f32.to_bits() },
        random_seed: Some(42),
        ..Default::default()
    };

    let response = client
        .chat(model, messages, Some(options), |_request: HttpRequest, _body: ChatRequest| {
            ok(CHAT_BODY)
        })
        .unwrap();

    assert_eq!(response.model.as_str(), "open-mistral-7b".to_string());
    assert_eq!(response.object, "chat.completion".to_string());
    assert_eq!(response.choices.len(), 1);
    assert_eq!(response.choices[0].index, 0);
    assert_eq!(response.choices[0].message.role.clone(), ChatMessageRole::Assistant);
    assert_eq!(
        response.choices[0].message.content.clone(),
        "Tower. The Eiffel Tower is a famous landmark in Paris, France.".to_string()
    );
    assert!(response.usage.prompt_tokens > 0);
    assert!(response.usage.completion_tokens > 0);
    assert!(response.usage.total_tokens > 21);
}

#[test]
fn a_refused_chat_names_the_body_first() {
    let mut client = client();
    client.last_function_call_result = Some("kept".to_string());
    let error = client
        .chat(Model::MistralTiny, Vec::new(), None, |_request: HttpRequest, body: ChatRequest| {
            assert_eq!(body.temperature.bits, 0.7f32.to_bits());
            assert_eq!(body.top_p.bits, 1.0f32.to_bits());
            replied(422, "422 Unprocessable Entity", "{\"detail\":\"no messages\"}")
        })
        .unwrap_err();
    assert_eq!(error.message, "{\"detail\":\"no messages\"}: 422 Unprocessable Entity");
    assert_eq!(client.get_last_function_call_result(), Some("kept".to_string()));
}

#[test]
fn a_chat_that_cannot_be_sent_carries_the_reason() {
    let mut client = client();
    let error = client
        .chat(Model::MistralTiny, Vec::new(), None, |_request: HttpRequest, _body: ChatRequest| {
            HttpOutcome::Failed("error sending request: connection refused".to_string())
        })
        .unwrap_err();
    assert_eq!(error.message, "error sending request: connection refused");
}

#[test]
fn a_chat_reply_that_cannot_be_read_is_an_error() {
    let mut client = client();
    client.last_function_call_result = Some("kept".to_string());
    let error = client
        .chat(Model::MistralTiny, Vec::new(), None, |_request: HttpRequest, _body: ChatRequest| {
            ok("<html>")
        })
        .unwrap_err();
    let expected = serde_json::from_str::<serde_json::Value>("<html>").unwrap_err().to_string();
    assert_eq!(error.message, expected);
    assert_eq!(client.get_last_function_call_result(), Some("kept".to_string()));

    let error = client
        .chat(Model::MistralTiny, Vec::new(), None, |_request: HttpRequest, _body: ChatRequest| {
            ok(&CHAT_BODY.replace("\"stop\"", "\"length\""))
        })
        .unwrap_err();
    assert_eq!(error.message, "invalid value for field `finish_reason`");
}

// --- functions ----------------------------------------------------------------

#[test]
fn a_registered_function_is_called_with_the_arguments_of_the_first_call() {
    let mut client = client();
    client.register_function("get_city_temperature".to_string(), Box::new(CityTemperature));
    client
        .chat(Model::MistralSmallLatest, Vec::new(), None, |_r: HttpRequest, _b: ChatRequest| {
            ok(TOOL_BODY)
        })
        .unwrap();
    assert_eq!(
        client.get_last_function_call_result(),
        Some("20 degrees for {\"city\": \"Paris\"}".to_string())
    );
    assert_eq!(client.get_last_function_call_result(), None);
}

#[test]
fn a_function_that_is_not_registered_is_not_called() {
    let mut client = client();
    client.register_function("other".to_string(), Box::new(CityTemperature));
    client.last_function_call_result = Some("old".to_string());
    client
        .chat(Model::MistralSmallLatest, Vec::new(), None, |_r: HttpRequest, _b: ChatRequest| {
            ok(TOOL_BODY)
        })
        .unwrap();
    assert_eq!(client.get_last_function_call_result(), None);
}

#[test]
fn a_reply_without_a_call_clears_the_last_result() {
    let mut client = client();
    client.register_function("get_city_temperature".to_string(), Box::new(CityTemperature));
    client.last_function_call_result = Some("old".to_string());
    client
        .chat(Model::OpenMistral7b, Vec::new(), None, |_r: HttpRequest, _b: ChatRequest| {
            ok(CHAT_BODY)
        })
        .unwrap();
    assert_eq!(client.get_last_function_call_result(), None);
}

#[test]
fn the_last_write_to_the_result_wins() {
    let mut client = client();
    client.register_function("a".to_string(), Box::new(Fixed("a ran")));
    client.register_function("b".to_string(), Box::new(Fixed("b ran")));
    let asks_for = |name: &str| {
        let body = format!(
            r#"{{"id":"c","object":"o","created":1,"model":"mistral-tiny","choices":[{{"index":0,"message":{{"role":"assistant","content":"","tool_calls":[{{"function":{{"name":"{}","arguments":"{{}}"}}}}]}},"finish_reason":"tool_calls"}}],"usage":{{"prompt_tokens":1,"completion_tokens":1,"total_tokens":2}}}}"#,
            name
        );
        mistralai_client::v1::chat::decode_chat_response(&body).unwrap()
    };
    client.call_function_if_any(&asks_for("a"));
    client.call_function_if_any(&asks_for("b"));
    assert_eq!(client.get_last_function_call_result(), Some("b ran".to_string()));
    client.call_function_if_any(&asks_for("b"));
    client.call_function_if_any(&asks_for("a"));
    assert_eq!(client.get_last_function_call_result(), Some("a ran".to_string()));
    client.call_function_if_any(&asks_for("a"));
    client.call_function_if_any(&asks_for("nobody"));
    assert_eq!(client.get_last_function_call_result(), None);
}

#[test]
fn the_last_registration_under_a_name_wins() {
    let mut client = client();
    client.register_function("get_city_temperature".to_string(), Box::new(Fixed("first")));
    client.register_function("get_city_temperature".to_string(), Box::new(Fixed("second")));
    let response = mistralai_client::v1::chat::decode_chat_response(TOOL_BODY).unwrap();
    client.call_function_if_any(&response);
    assert_eq!(client.get_last_function_call_result(), Some("second".to_string()));
}

#[test]
fn only_the_first_call_of_the_first_choice_is_seen_to() {
    let body = r#"{"id":"c","object":"chat.completion","created":1,"model":"mistral-tiny","choices":[{"index":0,"message":{"role":"assistant","content":"","tool_calls":[{"function":{"name":"a","arguments":"1"}},{"function":{"name":"b","arguments":"2"}}]},"finish_reason":"tool_calls"},{"index":1,"message":{"role":"assistant","content":"","tool_calls":[{"function":{"name":"b","arguments":"3"}}]},"finish_reason":"tool_calls"}],"usage":{"prompt_tokens":1,"completion_tokens":1,"total_tokens":2}}"#;
    let response = mistralai_client::v1::chat::decode_chat_response(body).unwrap();
    let mut client = client();
    client.register_function("b".to_string(), Box::new(Fixed("b ran")));
    client.call_function_if_any(&response);
    assert_eq!(client.get_last_function_call_result(), None);
    client.register_function("a".to_string(), Box::new(CityTemperature));
    client.call_function_if_any(&response);
    assert_eq!(client.get_last_function_call_result(), Some("20 degrees for 1".to_string()));
}

#[test]
fn empty_choices_and_empty_calls_ask_for_nothing() {
    let mut client = client();
    client.register_function("a".to_string(), Box::new(Fixed("ran")));
    let none = r#"{"id":"c","object":"o","created":1,"model":"mistral-tiny","choices":[],"usage":{"prompt_tokens":1,"completion_tokens":1,"total_tokens":2}}"#;
    let response = mistralai_client::v1::chat::decode_chat_response(none).unwrap();
    client.last_function_call_result = Some("old".to_string());
    client.call_function_if_any(&response);
    assert_eq!(client.get_last_function_call_result(), None);

    let empty = r#"{"id":"c","object":"o","created":1,"model":"mistral-tiny","choices":[{"index":0,"message":{"role":"assistant","content":"","tool_calls":[]},"finish_reason":"stop"}],"usage":{"prompt_tokens":1,"completion_tokens":1,"total_tokens":2}}"#;
    let response = mistralai_client::v1::chat::decode_chat_response(empty).unwrap();
    client.last_function_call_result = Some("old".to_string());
    client.call_function_if_any(&response);
    assert_eq!(client.get_last_function_call_result(), None);
}

// --- models -------------------------------------------------------------------

#[test]
fn test_client_list_models() {
    let client = client();

    let response = client
        .list_models(|request: HttpRequest| {
            assert_eq!(request.method, Method::Get);
            assert_eq!(request.url, "https://api.mistral.ai/v1/models");
            assert_eq!(header(&request, "Accept"), Some("application/json"));
            ok(MODELS_BODY)
        })
        .unwrap();

    assert_eq!(response.object, "list".to_string());
    assert!(response.data.len() > 0);
}

#[test]
fn test_list_models() {
    let client = client();

    let response = client.list_models(|_request: HttpRequest| ok(MODELS_BODY)).unwrap();

    assert_eq!(response.object, "list".to_string());
    assert!(response.data.len() > 0);

    let open_mistral_7b_data_item =
        response.data.iter().find(|item| item.id == "open-mistral-7b").unwrap();
    assert_eq!(open_mistral_7b_data_item.id, "open-mistral-7b".to_string());
    assert_eq!(open_mistral_7b_data_item.owned_by, "mistralai");
    assert_eq!(open_mistral_7b_data_item.created, 1703186988);
    assert_eq!(open_mistral_7b_data_item.permission.len(), 1);
    let permission = &open_mistral_7b_data_item.permission[0];
    assert_eq!(permission.id, "modelperm-1");
    assert!(!permission.allow_create_engine);
    assert!(permission.allow_sampling);
    assert!(!permission.allow_logprobs);
    assert!(!permission.allow_search_indices);
    assert!(permission.allow_view);
    assert!(!permission.allow_fine_tuning);
    assert_eq!(permission.organization, "*");
    assert!(!permission.is_blocking);
    assert_eq!(response.data[1].id, "mistral-embed");
    assert!(response.data[1].permission.is_empty());
}

#[test]
fn a_refused_list_names_the_status_first() {
    let client = client();
    let error = client
        .list_models(|_request: HttpRequest| replied(401, "401 Unauthorized", "no key"))
        .unwrap_err();
    assert_eq!(error.message, "401 Unauthorized: no key");

    let error = client
        .list_models(|_request: HttpRequest| HttpOutcome::Failed("dns error".to_string()))
        .unwrap_err();
    assert_eq!(error.message, "dns error");

    let error = client
        .list_models(|_request: HttpRequest| ok(r#"{"object":"list","data":[{"id":1}]}"#))
        .unwrap_err();
    assert_eq!(error.message, "invalid value for field `id`");
}

#[test]
fn get_and_post_hand_out_the_body() {
    let client = client();
    let body = client.get_sync("/models", |_request: HttpRequest| ok("plain")).unwrap();
    assert_eq!(body, "plain");
    let body = client
        .post_sync("/echo", 7u32, |request: HttpRequest, params: u32| {
            assert_eq!(request.url, "https://api.mistral.ai/v1/echo");
            assert_eq!(request.method, Method::Post);
            ok(&format!("got {}", params))
        })
        .unwrap();
    assert_eq!(body, "got 7");
    let error = client
        .post_sync("/echo", (), |_request: HttpRequest, _params: ()| replied(500, "500", "oops"))
        .unwrap_err();
    assert_eq!(error.message, "oops: 500");
    let error =
        client.get_sync("/x", |_request: HttpRequest| replied(500, "500", "oops")).unwrap_err();
    assert_eq!(error.message, "500: oops");
}

// --- embeddings -----------------------------------------------------------------

#[test]
fn test_client_embeddings() {
    let client = client();

    let model = EmbedModel::MistralEmbed;
    let input = vec!["Embed this sentence.", "As well as this one."]
        .iter()
        .map(|s| s.to_string())
        .collect();
    let options = None;

    let response = client
        .embeddings(
            model,
            input,
            options,
            |request: HttpRequest, body: EmbeddingRequest| {
                assert_eq!(request.url, "https://api.mistral.ai/v1/embeddings");
                assert_eq!(request.method, Method::Post);
                assert_eq!(body.model, EmbedModel::MistralEmbed);
                assert_eq!(body.input, vec!["Embed this sentence.", "As well as this one."]);
                assert_eq!(body.encoding_format, None);
                ok(EMBEDDINGS_BODY)
            },
            decode_embeddings,
        )
        .unwrap();

    assert_eq!(response.model, EmbedModel::MistralEmbed);
    assert_eq!(response.object, "list".to_string());
    assert_eq!(response.data.len(), 2);
    assert_eq!(response.data[0].index, 0);
    assert_eq!(response.data[0].object.clone(), "embedding".to_string());
    assert!(response.data[0].embedding.len() > 0);
    assert_eq!(response.data[0].embedding[1].bits, (-0.25f32).to_bits());
    assert!(response.usage.prompt_tokens > 0);
    assert_eq!(response.usage.completion_tokens, 0);
    assert!(response.usage.total_tokens > 0);
}

#[test]
fn embeddings_that_fail_say_why() {
    let client = client();
    let error = client
        .embeddings(
            EmbedModel::MistralEmbed,
            Vec::new(),
            None,
            |_r: HttpRequest, _b: EmbeddingRequest| replied(400, "400 Bad Request", "empty input"),
            decode_embeddings,
        )
        .unwrap_err();
    assert_eq!(error.message, "empty input: 400 Bad Request");

    let error = client
        .embeddings(
            EmbedModel::MistralEmbed,
            Vec::new(),
            None,
            |_r: HttpRequest, _b: EmbeddingRequest| ok("{}"),
            decode_embeddings,
        )
        .unwrap_err();
    assert_eq!(error.message, "missing field `data`");
    assert_eq!(client.to_api_error("text".to_string()).message, "text");
}

// --- opening a stream -----------------------------------------------------------

#[test]
fn a_stream_is_opened_with_a_streamed_request() {
    let client = client();
    let messages = vec![ChatMessage::new_user_message("Hello, world!")];
    let mut stream = client
        .chat_stream(
            Model::OpenMistral7b,
            messages,
            None,
            FaultPolicy::Skip,
            Framing::PerDelivery,
            |request: HttpRequest, body: ChatRequest| {
                assert_eq!(request.method, Method::Post);
                assert_eq!(request.url, "https://api.mistral.ai/v1/chat/completions");
                assert_eq!(header(&request, "Accept"), Some("text/event-stream"));
                assert_eq!(header(&request, "Authorization"), Some("Bearer secret"));
                assert!(body.stream);
                assert_eq!(body.model, Model::OpenMistral7b);
                ok("")
            },
        )
        .unwrap();
    assert_eq!(stream.state, StreamState::Active);
    assert_eq!(stream.policy, FaultPolicy::Skip);
    assert_eq!(stream.framing, Framing::PerDelivery);
    assert!(stream.on_chunk(b"data: [DONE]\n").is_none());
    assert_eq!(stream.state, StreamState::Terminated);
}

#[test]
fn a_connection_reset_before_any_bytes_gives_no_stream() {
    let client = client();
    let error = client
        .chat_stream(
            Model::OpenMistral7b,
            Vec::new(),
            None,
            FaultPolicy::Skip,
            Framing::PerDelivery,
            |_request: HttpRequest, _body: ChatRequest| {
                HttpOutcome::Failed("connection reset".to_string())
            },
        )
        .unwrap_err();
    assert_eq!(error.message, "connection reset");

    let error = client
        .chat_stream(
            Model::OpenMistral7b,
            Vec::new(),
            None,
            FaultPolicy::Report,
            Framing::Reassemble,
            |_request: HttpRequest, _body: ChatRequest| replied(503, "503 Service Unavailable", "busy"),
        )
        .unwrap_err();
    assert_eq!(error.message, "503 Service Unavailable: busy");
}
