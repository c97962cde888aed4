use mistralai_client::v1::chat::ChatMessageRole;
use mistralai_client::v1::chat_stream::{
    classify_line, decode_delivery, decode_fragment, fragment_from_json, frame_lines,
    get_chunk_from_stream_message_line, ChatStreamChunk, ChatStreamChunkChoice,
    ChatStreamChunkChoiceDelta, LineEvent,
};
use mistralai_client::v1::common::ResponseUsage;
use mistralai_client::v1::constants::Model;
use mistralai_client::v1::http::{HttpOutcome, HttpReply};
use mistralai_client::v1::stream::{ChatStream, FaultPolicy, Framing, StreamState};

const FRAGMENT_A: &str = r#"{"id":"cmpl-1","object":"chat.completion.chunk","created":1711111111,"model":"open-mistral-7b","choices":[{"index":0,"delta":{"role":"assistant","content":""},"finish_reason":null}]}"#;

const FRAGMENT_B: &str = r#"{"id":"cmpl-1","object":"chat.completion.chunk","created":1711111112,"model":"open-mistral-7b","choices":[{"index":0,"delta":{"content":"Tower"},"finish_reason":"stop"}],"usage":{"prompt_tokens":12,"completion_tokens":3,"total_tokens":15}}"#;

fn payload_of(event: LineEvent<String>) -> Option<String> {
    match event {
        LineEvent::Data(payload) => Some(payload),
        _ => None,
    }
}

fn is_termination(event: &LineEvent<String>) -> bool {
    matches!(event, LineEvent::Termination)
}

fn is_blank(event: &LineEvent<String>) -> bool {
    matches!(event, LineEvent::Blank)
}

fn ok_reply() -> HttpOutcome {
    HttpOutcome::Replied(HttpReply {
        status: 200,
        status_text: "200 OK".to_string(),
        body: String::new(),
    })
}

fn active(policy: FaultPolicy) -> ChatStream {
    ChatStream::open(ok_reply(), policy, Framing::PerDelivery).unwrap()
}

// --- the classifier ---------------------------------------------------------

#[test]
fn sentinel_line_is_termination() {
    assert!(is_termination(&classify_line("data: [DONE]")));
    assert!(is_termination(&classify_line("data: [DONE]\r")));
    assert!(is_termination(&classify_line("  data: [DONE]  ")));
    assert!(is_termination(&classify_line("\tdata: [DONE]\n")));
}

#[test]
fn near_sentinel_lines_are_not_termination() {
    assert!(!is_termination(&classify_line("data: [DONE] x")));
    assert!(!is_termination(&classify_line("data:[DONE]")));
    assert!(!is_termination(&classify_line("[DONE]")));
    assert!(!is_termination(&classify_line("data: [done]")));
}

#[test]
fn blank_lines_carry_nothing() {
    assert!(is_blank(&classify_line("")));
    assert!(is_blank(&classify_line("   ")));
    assert!(is_blank(&classify_line("\r")));
    assert!(is_blank(&classify_line("\u{3000}\t")));
    assert!(is_blank(&classify_line("data: ")));
    assert!(is_blank(&classify_line("data:  \t")));
    assert!(is_blank(&classify_line("  data: ")));
    assert!(is_blank(&classify_line("\tdata: \r")));
}

#[test]
fn data_lines_carry_their_payload() {
    assert_eq!(payload_of(classify_line("data: {}")), Some("{}".to_string()));
    assert_eq!(payload_of(classify_line("data:   {\"a\": 1}  \r")), Some("{\"a\": 1}".to_string()));
    assert_eq!(payload_of(classify_line("data: data: {}")), Some("data: {}".to_string()));
    assert_eq!(payload_of(classify_line("data: data: ")), Some("data:".to_string()));
    assert_eq!(payload_of(classify_line("{}")), Some("{}".to_string()));
    assert_eq!(payload_of(classify_line("data:")), Some("data:".to_string()));
    assert_eq!(payload_of(classify_line("data: [DONE] x")), Some("[DONE] x".to_string()));
}

#[test]
fn whitespace_in_front_of_the_marker_is_passed_over() {
    assert_eq!(payload_of(classify_line("  data: {}")), Some("{}".to_string()));
    assert_eq!(payload_of(classify_line("\t data:   {} \r")), Some("{}".to_string()));
    let line = format!("   data: {}", FRAGMENT_B);
    let fragments = get_chunk_from_stream_message_line(&line).unwrap().unwrap();
    assert_eq!(fragments.len(), 1);
    assert_eq!(fragments[0].created, 1711111112);
}

// --- one line -----------------------------------------------------------------

#[test]
fn sentinel_line_yields_nothing_at_all() {
    assert!(get_chunk_from_stream_message_line("data: [DONE]").unwrap().is_none());
    assert!(get_chunk_from_stream_message_line(" data: [DONE] \r\n").unwrap().is_none());
}

#[test]
fn blank_line_yields_no_fragment_and_no_error() {
    for line in ["", "  ", "data: ", "data:   "] {
        let fragments = get_chunk_from_stream_message_line(line).unwrap().unwrap();
        assert!(fragments.is_empty(), "{:?}", line);
    }
}

#[test]
fn data_line_yields_its_fragment() {
    let line = format!("data: {}", FRAGMENT_B);
    let fragments = get_chunk_from_stream_message_line(&line).unwrap().unwrap();
    assert_eq!(fragments.len(), 1);
    let fragment = &fragments[0];
    assert_eq!(fragment.id, "cmpl-1");
    assert_eq!(fragment.object, "chat.completion.chunk");
    assert_eq!(fragment.created, 1711111112);
    assert_eq!(fragment.model, Model::OpenMistral7b);
    assert_eq!(fragment.choices.len(), 1);
    assert_eq!(fragment.choices[0].index, 0);
    assert_eq!(fragment.choices[0].delta.role, None);
    assert_eq!(fragment.choices[0].delta.content, "Tower");
    assert_eq!(fragment.choices[0].finish_reason, Some("stop".to_string()));
    assert_eq!(
        fragment.usage,
        Some(ResponseUsage { prompt_tokens: 12, completion_tokens: 3, total_tokens: 15 })
    );
}

#[test]
fn first_fragment_carries_the_role() {
    let line = format!("data: {}\r", FRAGMENT_A);
    let fragments = get_chunk_from_stream_message_line(&line).unwrap().unwrap();
    assert_eq!(fragments.len(), 1);
    assert_eq!(fragments[0].choices[0].delta.role, Some(ChatMessageRole::Assistant));
    assert_eq!(fragments[0].choices[0].delta.content, "");
    assert_eq!(fragments[0].choices[0].finish_reason, None);
    assert_eq!(fragments[0].usage, None);
}

#[test]
fn malformed_json_is_a_decode_error_with_the_parser_message() {
    let payload = "{\"id\": \"cmpl-1\", \"object\"";
    let expected = serde_json::from_str::<serde_json::Value>(payload).unwrap_err().to_string();
    let error = get_chunk_from_stream_message_line(&format!("data: {}", payload)).unwrap_err();
    assert_eq!(error.message, expected);
    assert!(!error.message.is_empty());
    assert_eq!(error.to_string(), format!("ApiError: {}", expected));
}

#[test]
fn text_that_is_no_json_is_a_decode_error() {
    let expected = serde_json::from_str::<serde_json::Value>("hello").unwrap_err().to_string();
    let error = get_chunk_from_stream_message_line("hello").unwrap_err();
    assert_eq!(error.message, expected);
}

// --- the schema -------------------------------------------------------------

fn fragment_error(payload: &str) -> String {
    decode_fragment(payload).unwrap_err().message
}

#[test]
fn payload_must_be_an_object() {
    assert_eq!(fragment_error("[1, 2]"), "invalid type: expected a JSON object");
    assert_eq!(fragment_error("\"text\""), "invalid type: expected a JSON object");
    assert_eq!(fragment_error("42"), "invalid type: expected a JSON object");
    assert_eq!(fragment_error("null"), "invalid type: expected a JSON object");
}

#[test]
fn missing_members_are_named() {
    assert_eq!(fragment_error("{}"), "missing field `id`");
    assert_eq!(fragment_error(r#"{"id":"a"}"#), "missing field `object`");
    assert_eq!(fragment_error(r#"{"id":"a","object":"o"}"#), "missing field `created`");
    assert_eq!(fragment_error(r#"{"id":"a","object":"o","created":1}"#), "missing field `model`");
    assert_eq!(
        fragment_error(r#"{"id":"a","object":"o","created":1,"model":"mistral-tiny"}"#),
        "missing field `choices`"
    );
    assert_eq!(
        fragment_error(
            r#"{"id":"a","object":"o","created":1,"model":"mistral-tiny","choices":[{"index":0}]}"#
        ),
        "missing field `delta`"
    );
    assert_eq!(
        fragment_error(
            r#"{"id":"a","object":"o","created":1,"model":"mistral-tiny","choices":[{"index":0,"delta":{}}]}"#
        ),
        "missing field `content`"
    );
    assert_eq!(
        fragment_error(
            r#"{"id":"a","object":"o","created":1,"model":"mistral-tiny","choices":[{"delta":{"content":"x"}}]}"#
        ),
        "missing field `index`"
    );
}

#[test]
fn members_of_the_wrong_kind_are_named() {
    assert_eq!(fragment_error(r#"{"id":1}"#), "invalid value for field `id`");
    assert_eq!(fragment_error(r#"{"id":null}"#), "invalid value for field `id`");
    assert_eq!(
        fragment_error(r#"{"id":"a","object":"o","created":"now"}"#),
        "invalid value for field `created`"
    );
    assert_eq!(
        fragment_error(r#"{"id":"a","object":"o","created":-1}"#),
        "invalid value for field `created`"
    );
    assert_eq!(
        fragment_error(r#"{"id":"a","object":"o","created":1.0}"#),
        "invalid value for field `created`"
    );
    assert_eq!(
        fragment_error(r#"{"id":"a","object":"o","created":4294967296}"#),
        "invalid value for field `created`"
    );
    assert_eq!(
        fragment_error(r#"{"id":"a","object":"o","created":1,"model":"gpt"}"#),
        "invalid value for field `model`"
    );
    assert_eq!(
        fragment_error(r#"{"id":"a","object":"o","created":1,"model":"mistral-tiny","choices":{}}"#),
        "invalid value for field `choices`"
    );
    assert_eq!(
        fragment_error(r#"{"id":"a","object":"o","created":1,"model":"mistral-tiny","choices":[7]}"#),
        "invalid value for field `choices`"
    );
    assert_eq!(
        fragment_error(
            r#"{"id":"a","object":"o","created":1,"model":"mistral-tiny","choices":[{"index":0,"delta":[]}]}"#
        ),
        "invalid value for field `delta`"
    );
    assert_eq!(
        fragment_error(
            r#"{"id":"a","object":"o","created":1,"model":"mistral-tiny","choices":[{"index":0,"delta":{"role":"robot","content":"x"}}]}"#
        ),
        "invalid value for field `role`"
    );
    assert_eq!(
        fragment_error(
            r#"{"id":"a","object":"o","created":1,"model":"mistral-tiny","choices":[{"index":0,"delta":{"content":"x"},"finish_reason":3}]}"#
        ),
        "invalid value for field `finish_reason`"
    );
    assert_eq!(
        fragment_error(
            r#"{"id":"a","object":"o","created":1,"model":"mistral-tiny","choices":[{"index":0,"delta":{"content":"x"}}],"usage":5}"#
        ),
        "invalid value for field `usage`"
    );
    assert_eq!(
        fragment_error(
            r#"{"id":"a","object":"o","created":1,"model":"mistral-tiny","choices":[{"index":0,"delta":{"content":"x"}}],"usage":{"prompt_tokens":1,"completion_tokens":2}}"#
        ),
        "missing field `total_tokens`"
    );
}

#[test]
fn a_fragment_speaks_of_at_least_one_choice() {
    assert_eq!(
        fragment_error(r#"{"id":"a","object":"o","created":1,"model":"mistral-tiny","choices":[]}"#),
        "invalid value for field `choices`"
    );
}

#[test]
fn the_first_choice_that_fails_decides() {
    assert_eq!(
        fragment_error(
            r#"{"id":"a","object":"o","created":1,"model":"mistral-tiny","choices":[{"index":0,"delta":{"content":"x"}},{"index":"one","delta":{"content":"y"}},{"delta":{"content":"z"}}]}"#
        ),
        "invalid value for field `index`"
    );
}

#[test]
fn other_members_are_ignored_and_largest_numbers_fit() {
    let fragment = decode_fragment(
        r#"{"extra":[1,2,3],"id":"a","object":"o","created":4294967295,"model":"codestral-latest","logprobs":null,"choices":[{"index":4294967295,"delta":{"content":"x","extra":true},"finish_reason":null,"logprobs":null},{"index":1,"delta":{"role":null,"content":"y"}}],"usage":null}"#,
    )
    .unwrap();
    assert_eq!(fragment.created, u32::MAX);
    assert_eq!(fragment.model, Model::CodestralLatest);
    assert_eq!(fragment.choices.len(), 2);
    assert_eq!(fragment.choices[0].index, u32::MAX);
    assert_eq!(fragment.choices[1].delta.role, None);
    assert_eq!(fragment.choices[1].delta.content, "y");
    assert_eq!(fragment.usage, None);
}

#[test]
fn every_model_name_is_read() {
    for (name, model) in [
        ("open-mistral-7b", Model::OpenMistral7b),
        ("open-mixtral-8x7b", Model::OpenMixtral8x7b),
        ("open-mixtral-8x22b", Model::OpenMixtral8x22b),
        ("mistral-tiny", Model::MistralTiny),
        ("mistral-small-latest", Model::MistralSmallLatest),
        ("mistral-medium-latest", Model::MistralMediumLatest),
        ("mistral-large-latest", Model::MistralLargeLatest),
        ("codestral-latest", Model::CodestralLatest),
    ] {
        let payload = format!(
            r#"{{"id":"a","object":"o","created":1,"model":"{}","choices":[{{"index":0,"delta":{{"content":"x"}}}}]}}"#,
            name
        );
        assert_eq!(decode_fragment(&payload).unwrap().model, model);
    }
}

#[test]
fn every_role_name_is_read() {
    for (name, role) in [
        ("system", ChatMessageRole::System),
        ("assistant", ChatMessageRole::Assistant),
        ("user", ChatMessageRole::User),
        ("tool", ChatMessageRole::Tool),
    ] {
        let payload = format!(
            r#"{{"id":"a","object":"o","created":1,"model":"mistral-tiny","choices":[{{"index":0,"delta":{{"role":"{}","content":"x"}}}}]}}"#,
            name
        );
        assert_eq!(decode_fragment(&payload).unwrap().choices[0].delta.role, Some(role));
    }
}

// --- round trip ---------------------------------------------------------------

fn text_or_null(text: &Option<String>) -> serde_json::Value {
    match text {
        Some(text) => serde_json::Value::String(text.clone()),
        None => serde_json::Value::Null,
    }
}

fn json_of(fragment: &ChatStreamChunk) -> serde_json::Value {
    let mut choices = Vec::new();
    for choice in &fragment.choices {
        let mut delta = serde_json::Map::new();
        delta.insert(
            "role".to_string(),
            text_or_null(&choice.delta.role.map(|role| role.as_str().to_string())),
        );
        delta.insert("content".to_string(), serde_json::Value::String(choice.delta.content.clone()));
        let mut object = serde_json::Map::new();
        object.insert("index".to_string(), serde_json::Value::from(choice.index));
        object.insert("delta".to_string(), serde_json::Value::Object(delta));
        object.insert("finish_reason".to_string(), text_or_null(&choice.finish_reason));
        choices.push(serde_json::Value::Object(object));
    }
    let usage = match &fragment.usage {
        Some(usage) => {
            let mut object = serde_json::Map::new();
            object.insert("prompt_tokens".to_string(), serde_json::Value::from(usage.prompt_tokens));
            object.insert(
                "completion_tokens".to_string(),
                serde_json::Value::from(usage.completion_tokens),
            );
            object.insert("total_tokens".to_string(), serde_json::Value::from(usage.total_tokens));
            serde_json::Value::Object(object)
        }
        None => serde_json::Value::Null,
    };
    let mut object = serde_json::Map::new();
    object.insert("id".to_string(), serde_json::Value::String(fragment.id.clone()));
    object.insert("object".to_string(), serde_json::Value::String(fragment.object.clone()));
    object.insert("created".to_string(), serde_json::Value::from(fragment.created));
    object.insert(
        "model".to_string(),
        serde_json::Value::String(fragment.model.as_str().to_string()),
    );
    object.insert("choices".to_string(), serde_json::Value::Array(choices));
    object.insert("usage".to_string(), usage);
    serde_json::Value::Object(object)
}

fn same_fragment(a: &ChatStreamChunk, b: &ChatStreamChunk) -> bool {
    a.id == b.id
        && a.object == b.object
        && a.created == b.created
        && a.model == b.model
        && a.usage == b.usage
        && a.choices.len() == b.choices.len()
        && a.choices.iter().zip(b.choices.iter()).all(|(x, y)| {
            x.index == y.index
                && x.finish_reason == y.finish_reason
                && x.delta.role == y.delta.role
                && x.delta.content == y.delta.content
        })
}

fn known_fragments() -> Vec<ChatStreamChunk> {
    vec![
        ChatStreamChunk {
            id: "cmpl-42".to_string(),
            object: "chat.completion.chunk".to_string(),
            created: 1_700_000_000,
            model: Model::MistralSmallLatest,
            choices: vec![ChatStreamChunkChoice {
                index: 0,
                delta: ChatStreamChunkChoiceDelta {
                    role: Some(ChatMessageRole::Assistant),
                    content: String::new(),
                },
                finish_reason: None,
            }],
            usage: None,
        },
        ChatStreamChunk {
            id: "x \"quoted\" \\ \n é 日本".to_string(),
            object: String::new(),
            created: 0,
            model: Model::OpenMixtral8x22b,
            choices: vec![
                ChatStreamChunkChoice {
                    index: 7,
                    delta: ChatStreamChunkChoiceDelta { role: None, content: "  Tower ".to_string() },
                    finish_reason: Some("stop".to_string()),
                },
                ChatStreamChunkChoice {
                    index: u32::MAX,
                    delta: ChatStreamChunkChoiceDelta {
                        role: Some(ChatMessageRole::Tool),
                        content: "data: [DONE]".to_string(),
                    },
                    finish_reason: Some(String::new()),
                },
            ],
            usage: Some(ResponseUsage {
                prompt_tokens: 1,
                completion_tokens: u32::MAX,
                total_tokens: 3,
            }),
        },
    ]
}

#[test]
fn a_fragment_written_as_json_is_read_back() {
    for fragment in known_fragments() {
        let value = json_of(&fragment);
        let back = fragment_from_json(&value).unwrap();
        assert!(same_fragment(&fragment, &back));
    }
}

#[test]
fn a_fragment_goes_through_the_whole_pipeline() {
    for fragment in known_fragments() {
        let text = serde_json::to_string(&json_of(&fragment)).unwrap();
        let line = format!("data: {}", text);
        let fragments = get_chunk_from_stream_message_line(&line).unwrap().unwrap();
        assert_eq!(fragments.len(), 1);
        assert!(same_fragment(&fragment, &fragments[0]));

        let mut stream = active(FaultPolicy::Skip);
        let item = stream.on_chunk(format!("{}\n\n", line).as_bytes()).unwrap().unwrap();
        assert_eq!(item.len(), 1);
        assert!(same_fragment(&fragment, &item[0]));
    }
}

// --- framing ------------------------------------------------------------------

#[test]
fn a_delivery_is_framed_into_its_lines() {
    assert_eq!(
        frame_lines("data: a\r\n\r\ndata: [DONE]\nrest".as_bytes()).unwrap(),
        vec!["data: a", "", "data: [DONE]", "rest"]
    );
    assert_eq!(frame_lines(b"").unwrap(), Vec::<String>::new());
    assert_eq!(frame_lines("é\n\u{3000}".as_bytes()).unwrap(), vec!["é", "\u{3000}"]);
    for text in ["", "\n", "a\r", "a\r\n\nb", "x\ny\n"] {
        let expected: Vec<String> = text.lines().map(|line| line.to_string()).collect();
        assert_eq!(frame_lines(text.as_bytes()).unwrap(), expected);
    }
}

#[test]
fn bytes_that_are_not_utf8_cannot_be_framed() {
    let bytes: Vec<u8> = vec![b'o', b'k', b'\n', 0x80];
    let expected = std::str::from_utf8(&bytes).unwrap_err().to_string();
    assert_eq!(frame_lines(&bytes).unwrap_err().message, expected);
}

// --- deliveries -------------------------------------------------------------

#[test]
fn a_delivery_carries_the_fragments_of_its_lines() {
    let bytes = format!("data: {}\n\ndata: {}\r\n\r\n", FRAGMENT_A, FRAGMENT_B);
    let delivery = decode_delivery(bytes.as_bytes()).unwrap();
    assert_eq!(delivery.fragments.len(), 2);
    assert_eq!(delivery.fragments[0].created, 1711111111);
    assert_eq!(delivery.fragments[1].created, 1711111112);
    assert!(delivery.faults.is_empty());
    assert!(!delivery.terminated);
}

#[test]
fn an_empty_delivery_carries_nothing() {
    for bytes in ["", "\n", "\r\n\r\n", "data: \n"] {
        let delivery = decode_delivery(bytes.as_bytes()).unwrap();
        assert!(delivery.fragments.is_empty());
        assert!(delivery.faults.is_empty());
        assert!(!delivery.terminated);
    }
}

#[test]
fn lines_behind_the_sentinel_are_not_looked_at() {
    let bytes = format!("data: {}\ndata: [DONE]\ndata: {}\nnot json\n", FRAGMENT_A, FRAGMENT_B);
    let delivery = decode_delivery(bytes.as_bytes()).unwrap();
    assert_eq!(delivery.fragments.len(), 1);
    assert_eq!(delivery.fragments[0].created, 1711111111);
    assert!(delivery.faults.is_empty());
    assert!(delivery.terminated);
}

#[test]
fn a_line_that_does_not_decode_is_a_fault_of_that_line_alone() {
    let bytes = format!("data: {}\ndata: {{\"id\":\ndata: {}\n", FRAGMENT_A, FRAGMENT_B);
    let delivery = decode_delivery(bytes.as_bytes()).unwrap();
    assert_eq!(delivery.fragments.len(), 2);
    assert_eq!(delivery.fragments[0].created, 1711111111);
    assert_eq!(delivery.fragments[1].created, 1711111112);
    assert_eq!(delivery.faults.len(), 1);
    let expected = serde_json::from_str::<serde_json::Value>("{\"id\":").unwrap_err().to_string();
    assert_eq!(delivery.faults[0].message, expected);
    assert!(!delivery.terminated);
}

#[test]
fn bytes_that_are_not_utf8_are_a_decode_error() {
    let bytes: Vec<u8> = vec![b'd', b'a', b't', b'a', 0xff, 0xfe];
    let expected = String::from_utf8(bytes.clone()).unwrap_err().to_string();
    let error = decode_delivery(&bytes).unwrap_err();
    assert_eq!(error.message, expected);
    assert!(error.message.contains("utf-8"));

    let cut: Vec<u8> = vec![b'a', 0xe6, 0x97];
    let expected = String::from_utf8(cut.clone()).unwrap_err().to_string();
    assert_eq!(decode_delivery(&cut).unwrap_err().message, expected);
}

#[test]
fn text_beyond_ascii_is_read() {
    let payload = r#"{"id":"a","object":"o","created":1,"model":"mistral-tiny","choices":[{"index":0,"delta":{"content":"Tour Eiffel — 日本語 😀"}}]}"#;
    let bytes = format!("data: {}\u{3000}\n", payload);
    let delivery = decode_delivery(bytes.as_bytes()).unwrap();
    assert_eq!(delivery.fragments.len(), 1);
    assert_eq!(delivery.fragments[0].choices[0].delta.content, "Tour Eiffel — 日本語 😀");
}

// --- the stream -------------------------------------------------------------

#[test]
fn one_fragment_then_the_sentinel() {
    let mut stream = active(FaultPolicy::Skip);
    assert_eq!(stream.state, StreamState::Active);
    assert!(!stream.is_finished());

    let first = stream.on_chunk(format!("data: {}\n", FRAGMENT_A).as_bytes());
    let fragments = first.unwrap().unwrap();
    assert_eq!(fragments.len(), 1);
    assert_eq!(fragments[0].id, "cmpl-1");
    assert_eq!(stream.state, StreamState::Active);

    let second = stream.on_chunk("data: [DONE]\n".as_bytes());
    assert!(second.is_none());
    assert_eq!(stream.state, StreamState::Terminated);
    assert!(stream.is_finished());
}

#[test]
fn nothing_is_yielded_after_the_sentinel_even_if_more_bytes_follow() {
    let mut stream = active(FaultPolicy::Skip);
    assert!(stream.on_chunk("data: [DONE]\n".as_bytes()).is_none());
    assert_eq!(stream.state, StreamState::Terminated);
    assert!(stream.on_chunk(format!("data: {}\n", FRAGMENT_A).as_bytes()).is_none());
    assert!(stream.on_chunk(&[0xff]).is_none());
    assert!(stream.on_transport_error("reset".to_string()).is_none());
    assert!(stream.on_end().is_none());
    assert_eq!(stream.state, StreamState::Terminated);
}

#[test]
fn fragments_in_front_of_the_sentinel_are_still_yielded() {
    let mut stream = active(FaultPolicy::Skip);
    let bytes = format!("data: {}\n\ndata: [DONE]\n\ndata: {}\n", FRAGMENT_A, FRAGMENT_B);
    let fragments = stream.on_chunk(bytes.as_bytes()).unwrap().unwrap();
    assert_eq!(fragments.len(), 1);
    assert_eq!(fragments[0].created, 1711111111);
    assert_eq!(stream.state, StreamState::Terminated);
}

#[test]
fn a_delivery_of_blank_lines_yields_an_empty_batch() {
    let mut stream = active(FaultPolicy::Skip);
    let fragments = stream.on_chunk("\n\n".as_bytes()).unwrap().unwrap();
    assert!(fragments.is_empty());
    assert_eq!(stream.state, StreamState::Active);
}

#[test]
fn a_decode_error_does_not_end_the_stream() {
    let mut stream = active(FaultPolicy::Skip);
    let item = stream.on_chunk(&[b'd', 0xc3]).unwrap();
    assert!(item.is_err());
    assert_eq!(stream.state, StreamState::Active);

    let fragments = stream.on_chunk(format!("data: {}\n", FRAGMENT_B).as_bytes()).unwrap().unwrap();
    assert_eq!(fragments.len(), 1);
    assert_eq!(stream.state, StreamState::Active);
}

#[test]
fn a_malformed_line_is_skipped_under_the_skip_policy() {
    let mut stream = active(FaultPolicy::Skip);
    let bytes = format!("data: {{oops\ndata: {}\n", FRAGMENT_B);
    let fragments = stream.on_chunk(bytes.as_bytes()).unwrap().unwrap();
    assert_eq!(fragments.len(), 1);
    assert_eq!(stream.state, StreamState::Active);
    let more = stream.on_chunk(format!("data: {}\n", FRAGMENT_A).as_bytes()).unwrap().unwrap();
    assert_eq!(more.len(), 1);
}

#[test]
fn a_malformed_line_is_reported_under_the_report_policy() {
    let mut stream = active(FaultPolicy::Report);
    let bytes = format!("data: {}\ndata: {{oops\ndata: [1\n", FRAGMENT_B);
    let error = stream.on_chunk(bytes.as_bytes()).unwrap().unwrap_err();
    let expected = serde_json::from_str::<serde_json::Value>("{oops").unwrap_err().to_string();
    assert_eq!(error.message, expected);
    assert_eq!(stream.state, StreamState::Active);

    let fragments = stream.on_chunk(format!("data: {}\n", FRAGMENT_A).as_bytes()).unwrap().unwrap();
    assert_eq!(fragments.len(), 1);

    let last = stream.on_chunk("data: x\ndata: [DONE]\n".as_bytes()).unwrap();
    assert!(last.is_err());
    assert_eq!(stream.state, StreamState::Terminated);
}

#[test]
fn a_line_cut_in_two_is_two_lines() {
    let (head, tail) = FRAGMENT_B.split_at(40);
    let mut stream = active(FaultPolicy::Skip);
    let first = stream.on_chunk(format!("data: {}", head).as_bytes()).unwrap().unwrap();
    assert!(first.is_empty());
    let second = stream.on_chunk(format!("{}\n", tail).as_bytes()).unwrap().unwrap();
    assert!(second.is_empty());
    assert_eq!(stream.state, StreamState::Active);
}

#[test]
fn a_transport_failure_before_any_bytes_fails_the_construction() {
    let outcome = HttpOutcome::Failed("connection reset by peer".to_string());
    let error = ChatStream::open(outcome, FaultPolicy::Skip, Framing::PerDelivery).unwrap_err();
    assert_eq!(error.message, "connection reset by peer");
}

#[test]
fn a_refused_request_fails_the_construction() {
    let outcome = HttpOutcome::Replied(HttpReply {
        status: 401,
        status_text: "401 Unauthorized".to_string(),
        body: "{\"message\":\"Unauthorized\"}".to_string(),
    });
    let error = ChatStream::open(outcome, FaultPolicy::Skip, Framing::PerDelivery).unwrap_err();
    assert_eq!(error.message, "401 Unauthorized: {\"message\":\"Unauthorized\"}");
}

#[test]
fn every_success_status_opens_the_stream() {
    for (status, opens) in [(199u16, false), (200, true), (204, true), (299, true), (300, false), (500, false)] {
        let outcome = HttpOutcome::Replied(HttpReply {
            status,
            status_text: status.to_string(),
            body: String::new(),
        });
        let opened = ChatStream::open(outcome, FaultPolicy::Report, Framing::Reassemble);
        assert_eq!(opened.is_ok(), opens, "{}", status);
        if let Ok(stream) = opened {
            assert_eq!(stream.state, StreamState::Active);
            assert_eq!(stream.policy, FaultPolicy::Report);
            assert_eq!(stream.framing, Framing::Reassemble);
            assert!(stream.pending.is_empty());
        }
    }
}

#[test]
fn a_transport_failure_in_the_middle_is_the_last_item() {
    let mut stream = active(FaultPolicy::Skip);
    let item = stream.on_transport_error("broken pipe".to_string()).unwrap();
    assert_eq!(item.unwrap_err().message, "broken pipe");
    assert_eq!(stream.state, StreamState::Errored);
    assert!(stream.is_finished());
    assert!(stream.on_chunk(format!("data: {}\n", FRAGMENT_A).as_bytes()).is_none());
    assert!(stream.on_transport_error("again".to_string()).is_none());
    assert!(stream.on_end().is_none());
    assert_eq!(stream.state, StreamState::Errored);
}

#[test]
fn the_end_of_the_transport_ends_the_stream() {
    let mut stream = active(FaultPolicy::Skip);
    assert!(stream.on_end().is_none());
    assert_eq!(stream.state, StreamState::Terminated);
    assert!(stream.on_chunk(format!("data: {}\n", FRAGMENT_A).as_bytes()).is_none());
}

// --- reassembly ---------------------------------------------------------------

fn reassembling(policy: FaultPolicy) -> ChatStream {
    ChatStream::open(ok_reply(), policy, Framing::Reassemble).unwrap()
}

fn collect(stream: &mut ChatStream, deliveries: &[&[u8]]) -> (Vec<ChatStreamChunk>, usize) {
    let mut fragments = Vec::new();
    let mut errors = 0;
    let mut take = |item: Option<Result<Vec<ChatStreamChunk>, mistralai_client::v1::error::ApiError>>| match item {
        Some(Ok(batch)) => fragments.extend(batch),
        Some(Err(_)) => errors += 1,
        None => {}
    };
    for delivery in deliveries {
        take(stream.on_chunk(delivery));
    }
    take(stream.on_end());
    (fragments, errors)
}

fn same_fragments(a: &[ChatStreamChunk], b: &[ChatStreamChunk]) -> bool {
    a.len() == b.len() && a.iter().zip(b.iter()).all(|(x, y)| same_fragment(x, y))
}

#[test]
fn a_line_cut_in_two_is_put_together_again() {
    let (head, tail) = FRAGMENT_B.split_at(40);
    let mut stream = reassembling(FaultPolicy::Skip);
    let first = stream.on_chunk(format!("data: {}", head).as_bytes()).unwrap().unwrap();
    assert!(first.is_empty());
    assert_eq!(stream.pending, format!("data: {}", head).as_bytes());
    let second = stream.on_chunk(format!("{}\n", tail).as_bytes()).unwrap().unwrap();
    assert_eq!(second.len(), 1);
    assert_eq!(second[0].created, 1711111112);
    assert!(stream.pending.is_empty());
    assert_eq!(stream.state, StreamState::Active);
}

#[test]
fn every_cut_of_a_stream_yields_the_same_fragments() {
    let text = format!(
        "data: {}\r\n\r\ndata: {{\"id\": broken\n\ndata: {}\n\ndata: {}\n\ndata: [DONE]\n\ndata: {}\n",
        FRAGMENT_A,
        FRAGMENT_B,
        r#"{"id":"é日本😀","object":"o","created":3,"model":"mistral-tiny","choices":[{"index":0,"delta":{"content":"— 😀 —"}}]}"#,
        FRAGMENT_A
    );
    let bytes = text.as_bytes();
    let whole = decode_delivery(bytes).unwrap();
    assert_eq!(whole.fragments.len(), 3);
    assert!(whole.terminated);

    for at in 0..=bytes.len() {
        let mut stream = reassembling(FaultPolicy::Skip);
        let (fragments, errors) = collect(&mut stream, &[&bytes[..at], &bytes[at..]]);
        assert_eq!(errors, 0, "cut at {}", at);
        assert!(same_fragments(&fragments, &whole.fragments), "cut at {}", at);
        assert_eq!(stream.state, StreamState::Terminated);
        assert!(stream.pending.is_empty());
    }

    let mut stream = reassembling(FaultPolicy::Skip);
    let singles: Vec<&[u8]> = bytes.chunks(1).collect();
    let (fragments, errors) = collect(&mut stream, &singles);
    assert_eq!(errors, 0);
    assert!(same_fragments(&fragments, &whole.fragments));

    let mut stream = reassembling(FaultPolicy::Skip);
    let sevens: Vec<&[u8]> = bytes.chunks(7).collect();
    let (fragments, _) = collect(&mut stream, &sevens);
    assert!(same_fragments(&fragments, &whole.fragments));
}

#[test]
fn a_last_line_without_an_end_is_read_when_the_transport_ends() {
    let text = format!("data: {}\ndata: {}", FRAGMENT_A, FRAGMENT_B);
    let mut stream = reassembling(FaultPolicy::Skip);
    let first = stream.on_chunk(text.as_bytes()).unwrap().unwrap();
    assert_eq!(first.len(), 1);
    assert_eq!(first[0].created, 1711111111);
    assert_eq!(stream.state, StreamState::Active);
    let last = stream.on_end().unwrap().unwrap();
    assert_eq!(last.len(), 1);
    assert_eq!(last[0].created, 1711111112);
    assert_eq!(stream.state, StreamState::Terminated);
    assert!(stream.on_end().is_none());
    assert!(stream.on_chunk(b"data: x\n").is_none());
}

#[test]
fn a_sentinel_without_an_end_is_met_when_the_transport_ends() {
    let mut stream = reassembling(FaultPolicy::Skip);
    assert!(stream.on_chunk(b"data: [DO").unwrap().unwrap().is_empty());
    assert!(stream.on_chunk(b"NE]").unwrap().unwrap().is_empty());
    assert_eq!(stream.state, StreamState::Active);
    assert!(stream.on_end().is_none());
    assert_eq!(stream.state, StreamState::Terminated);
}

#[test]
fn the_sentinel_drops_what_follows_it() {
    let mut stream = reassembling(FaultPolicy::Skip);
    let item = stream.on_chunk(format!("data: [DONE]\ndata: {}", FRAGMENT_A).as_bytes());
    assert!(item.is_none());
    assert_eq!(stream.state, StreamState::Terminated);
    assert!(stream.pending.is_empty());
    assert!(stream.on_end().is_none());
}

#[test]
fn a_character_cut_in_two_is_put_together_again() {
    let text = format!(
        "data: {}\n",
        r#"{"id":"a","object":"o","created":1,"model":"mistral-tiny","choices":[{"index":0,"delta":{"content":"日本"}}]}"#
    );
    let bytes = text.as_bytes();
    let at = text.find('本').unwrap() + 1;
    assert!(std::str::from_utf8(&bytes[..at]).is_err());

    let mut stream = reassembling(FaultPolicy::Skip);
    assert!(stream.on_chunk(&bytes[..at]).unwrap().unwrap().is_empty());
    let fragments = stream.on_chunk(&bytes[at..]).unwrap().unwrap();
    assert_eq!(fragments.len(), 1);
    assert_eq!(fragments[0].choices[0].delta.content, "日本");

    let mut plain = active(FaultPolicy::Skip);
    assert!(plain.on_chunk(&bytes[..at]).unwrap().is_err());
    assert!(plain.on_chunk(&bytes[at..]).unwrap().is_err());
    assert_eq!(plain.state, StreamState::Active);
}

#[test]
fn whole_lines_that_are_not_utf8_are_an_error_of_their_delivery() {
    let mut stream = reassembling(FaultPolicy::Skip);
    let bad: Vec<u8> = vec![b'd', 0xff, b'\n', b'd', b'a'];
    let expected = std::str::from_utf8(&bad[..3]).unwrap_err().to_string();
    let error = stream.on_chunk(&bad).unwrap().unwrap_err();
    assert_eq!(error.message, expected);
    assert_eq!(stream.state, StreamState::Active);
    assert_eq!(stream.pending, b"da");
    let fragments =
        stream.on_chunk(format!("ta: {}\n", FRAGMENT_A).as_bytes()).unwrap().unwrap();
    assert_eq!(fragments.len(), 1);
}

#[test]
fn a_failure_of_the_transport_loses_what_was_kept() {
    let mut stream = reassembling(FaultPolicy::Report);
    assert!(stream.on_chunk(b"data: {").unwrap().unwrap().is_empty());
    assert_eq!(stream.pending, b"data: {");
    let item = stream.on_transport_error("reset".to_string()).unwrap();
    assert_eq!(item.unwrap_err().message, "reset");
    assert_eq!(stream.state, StreamState::Errored);
    assert!(stream.pending.is_empty());
    assert!(stream.on_end().is_none());
}

#[test]
fn faults_are_reported_by_a_reassembling_stream_too() {
    let mut stream = reassembling(FaultPolicy::Report);
    assert!(stream.on_chunk(b"data: {oo").unwrap().unwrap().is_empty());
    let error = stream.on_chunk(b"ps\ndata: ").unwrap().unwrap_err();
    let expected = serde_json::from_str::<serde_json::Value>("{oops").unwrap_err().to_string();
    assert_eq!(error.message, expected);
    assert_eq!(stream.pending, b"data: ");
    let last = stream.on_end().unwrap().unwrap();
    assert!(last.is_empty());
}
