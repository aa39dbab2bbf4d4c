use agent_core::json::{parse, same_json, Json};
use agent_core::op::{ChatMessage, FinishReason, Model, Response, ToolCall};
use agent_core::provider::{
    build_chat_body, chat_url, check_status, check_transcript, is_context_overflow,
    is_context_overflow_anyhow, is_context_overflow_message, openai_chat_body, parse_seconds,
    read_completion, ApiToolCall, ChatCompletion, Choice, ProviderError, Raised, RetryState,
    RetryStep, ToolSpec, Usage, MAX_ATTEMPTS,
};

fn json(text: &str) -> Json {
    parse(text).unwrap()
}

fn model() -> Model {
    Model("gpt-5.5".to_string())
}

fn empty_err() -> ProviderError {
    ProviderError::EmptyCompletion {
        raw: r#"{"choices":[{"message":{"content":""}}]}"#.to_string(),
    }
}

fn convo() -> Vec<ChatMessage> {
    vec![
        ChatMessage::user("do the task"),
        ChatMessage::assistant(
            None,
            vec![ToolCall::new("call_1", "shell", json(r#"{"command":"git commit -m x"}"#))],
        ),
        ChatMessage::tool("call_1", "committed"),
    ]
}

fn wire(body: &Json) -> &Vec<Json> {
    body.get("messages").unwrap().as_array().unwrap()
}

fn user_message_count(body: &Json) -> usize {
    wire(body).iter().filter(|m| m.get_str("role") == Some("user")).count()
}

fn nudged(body: &Json) -> bool {
    wire(body)
        .iter()
        .any(|m| m.get_str("content").map_or(false, |c| c.contains("previous response was empty")))
}

/// Tries a request until it succeeds or is given up, as a client does.
fn with_retries(
    mut send: impl FnMut(&Json) -> Result<Response, ProviderError>,
) -> (Result<Response, ProviderError>, Vec<u64>) {
    let mut state = RetryState::new();
    let mut waits = Vec::new();
    loop {
        let body = build_chat_body(&model(), &vec![], &convo(), state.nudge);
        match send(&body) {
            Ok(r) => return (Ok(r), waits),
            Err(e) => match state.failed(&e) {
                RetryStep::Again { after, state: next } => {
                    waits.push(after);
                    state = next;
                }
                RetryStep::GiveUp => return (Err(e), waits),
            },
        }
    }
}

fn ok(content: &str) -> Response {
    Response {
        content: content.to_string(),
        tool_calls: Vec::new(),
        finish_reason: Some(FinishReason::Stop),
        input_tokens: 0,
        output_tokens: 0,
        total_tokens: 0,
        cached_input_tokens: None,
        cost_micro_usd: None,
        pricing: None,
        metadata: Vec::new(),
    }
}

#[test]
fn typed_context_overflow_survives_anyhow_conversion() {
    let err = ProviderError::ContextOverflow {
        status: 400,
        text: "context_length_exceeded".to_string(),
    }
    .into_anyhow();
    assert!(is_context_overflow_anyhow(&err));
    assert!(err.to_string().starts_with("context_length_exceeded"));
    assert!(err.to_string().contains("400 Bad Request"), "{err}");
}

#[test]
fn a_raised_overflow_keeps_its_type() {
    let overflow = ProviderError::ContextOverflow { status: 400, text: "full".to_string() };
    match overflow.raise() {
        Raised::Overflow(e) => {
            assert_eq!((e.status, e.text.as_str()), (400, "full"));
            assert!(e.message().starts_with("context_length_exceeded: "));
        }
        other => panic!("{:?}", other),
    }
    match ProviderError::Other("no choices".to_string()).raise() {
        Raised::Other(e) => assert_eq!(e.to_string(), "no choices"),
        other => panic!("{:?}", other),
    }
    match ProviderError::transport("no route".to_string()).raise() {
        Raised::Other(e) => assert_eq!(format!("{e:#}"), "provider request failed: no route"),
        other => panic!("{:?}", other),
    }
}

#[test]
fn raw_provider_messages_classify_as_overflow() {
    assert!(is_context_overflow_anyhow(&anyhow::Error::msg(
        "Codex OAuth provider returned 400 Bad Request: \
         Your input exceeds the context window of this model."
    )));
    assert!(is_context_overflow_message("prompt is too long: 215000 tokens > 200000 maximum"));
    assert!(is_context_overflow_message("context_length_exceeded: provider returned 400: ..."));
    assert!(!is_context_overflow_anyhow(&anyhow::Error::msg("provider returned 500: boom")));
    assert!(!is_context_overflow_message("shell command printed 'context' and 'length' is fine"));
}

#[test]
fn wire_messages_strip_ids_and_adapt_tool_calls_to_openai_shape() {
    let messages = vec![
        ChatMessage::assistant(
            Some("text".to_string()),
            vec![ToolCall::new("call_1", "shell", json(r#"{"command":"pwd"}"#))],
        ),
        ChatMessage::tool("call_1", "ok"),
    ];

    let body = openai_chat_body(&model(), &vec![], &messages);

    let wire = wire(&body);
    assert!(
        wire.iter().all(|message| message.get("id").is_none()),
        "internal ids must not reach the wire: {wire:?}"
    );
    let call = wire[0].get("tool_calls").unwrap().at(0).unwrap();
    assert_eq!(call.get_str("id"), Some("call_1"));
    assert_eq!(call.get_str("type"), Some("function"));
    let function = call.get("function").unwrap();
    assert_eq!(function.get_str("name"), Some("shell"));
    assert_eq!(function.get_str("arguments"), Some(r#"{"command":"pwd"}"#));
    assert_eq!(wire[1].get_str("tool_call_id"), Some("call_1"));
}

#[test]
fn wire_messages_omit_empty_tool_calls_array() {
    let mut message = ChatMessage::assistant(Some("text".to_string()), Vec::new());
    message.tool_calls = Some(Vec::new());

    let body = openai_chat_body(&model(), &vec![], &vec![message]);

    assert!(wire(&body)[0].get("tool_calls").is_none());
}

#[test]
fn tools_are_offered_on_the_wire() {
    let tools = vec![ToolSpec::function(
        "shell".to_string(),
        "run".to_string(),
        json(r#"{"type":"object"}"#),
    )];
    let body = openai_chat_body(&model(), &tools, &convo());
    assert_eq!(body.get_str("model"), Some("gpt-5.5"));
    let offer = body.get("tools").unwrap().at(0).unwrap();
    assert!(same_json(
        offer,
        &json(
            r#"{"type":"function","function":{"name":"shell","description":"run","parameters":{"type":"object"}}}"#
        )
    ));
}

#[test]
fn empty_completion_is_retryable() {
    assert!(empty_err().is_retryable());
}

#[test]
fn http_429_and_5xx_are_retryable_but_4xx_is_not() {
    let make = |status| ProviderError::Http { status, text: String::new(), retry_after: None };
    assert!(make(429).is_retryable());
    assert!(make(500).is_retryable());
    assert!(!make(400).is_retryable());
}

#[test]
fn provider_refuses_dangling_tool_call_before_http() {
    let messages = vec![
        ChatMessage::user("do the task"),
        ChatMessage::assistant(
            None,
            vec![ToolCall::new("call_1", "shell", json(r#"{"command":"pwd"}"#))],
        ),
    ];
    let err = check_transcript(&messages).unwrap_err();
    assert!(err.contains("refusing to send malformed transcript"), "got: {err}");
    assert!(check_transcript(&convo()).is_ok());
}

#[test]
fn empty_completion_terminal_error_includes_raw_body() {
    let msg = empty_err().into_anyhow().to_string();
    assert!(msg.contains("empty completion"), "got: {msg}");
    assert!(msg.contains("raw response body"), "got: {msg}");
    assert!(msg.contains("choices"), "got: {msg}");
}

#[test]
fn exhausts_retries_then_returns_descriptive_error() {
    let mut calls = 0;
    let (result, waits) = with_retries(|_| {
        calls += 1;
        Err(empty_err())
    });
    assert_eq!(calls, MAX_ATTEMPTS, "must use the full retry budget");
    assert_eq!(waits, vec![1, 2]);
    let msg = result.unwrap_err().into_anyhow().to_string();
    assert!(msg.contains("empty completion"), "got: {msg}");
}

#[test]
fn retry_after_empty_injects_continuation_nudge() {
    let mut bodies = Vec::new();
    let _ = with_retries(|body| {
        bodies.push(body.clone());
        Err(empty_err())
    });
    assert_eq!(bodies.len(), MAX_ATTEMPTS);
    assert!(!nudged(&bodies[0]), "first attempt must not be nudged");
    let base_users = user_message_count(&bodies[0]);
    for body in &bodies[1..] {
        assert!(nudged(body), "retry must inject the continuation nudge");
        assert_eq!(user_message_count(body), base_users + 1);
    }
}

#[test]
fn nudged_retry_recovers() {
    let mut calls = 0;
    let (result, _) = with_retries(|body| {
        calls += 1;
        if calls == 1 {
            assert!(!nudged(body));
            Err(empty_err())
        } else {
            assert!(nudged(body), "recovery attempt should be nudged");
            Ok(ok("done"))
        }
    });
    assert_eq!(calls, 2);
    assert_eq!(result.unwrap().content, "done");
}

#[test]
fn non_retryable_error_is_not_retried() {
    let mut calls = 0;
    let (result, _) = with_retries(|_| {
        calls += 1;
        Err(ProviderError::Http { status: 400, text: "bad".to_string(), retry_after: None })
    });
    assert_eq!(calls, 1, "4xx must not be retried");
    assert!(result.is_err());
}

#[test]
fn a_server_says_how_long_to_wait() {
    let e = check_status(429, "slow down", parse_seconds("7")).unwrap();
    assert_eq!(e.retry_after(), Some(7));
    match RetryState::new().failed(&e) {
        RetryStep::Again { after, state } => {
            assert_eq!(after, 7);
            assert!(!state.nudge);
        }
        RetryStep::GiveUp => panic!("a 429 is tried again"),
    }
    assert_eq!(parse_seconds("soon"), None);
    assert_eq!(parse_seconds(""), None);
    assert!(check_status(200, "", None).is_none());
}

#[test]
fn statuses_are_classified() {
    assert!(matches!(
        check_status(400, "context_length_exceeded", None),
        Some(ProviderError::ContextOverflow { status: 400, .. })
    ));
    assert!(matches!(
        check_status(500, "boom", None),
        Some(ProviderError::Http { status: 500, .. })
    ));
    assert!(is_context_overflow(400, "over the context limit"));
    assert!(!is_context_overflow(500, "over the context limit"));
    assert!(!is_context_overflow(400, "no such model"));
}

#[test]
fn http_errors_show_their_status() {
    let e = ProviderError::Http { status: 404, text: "nothing".to_string(), retry_after: None };
    let text = e.into_anyhow().to_string();
    assert!(text.contains("404 Not Found"), "{text}");
    assert!(text.contains("nothing"), "{text}");
    let t = ProviderError::transport("no route".to_string());
    assert!(t.is_retryable());
    assert!(!format!("{:#}", t.into_anyhow()).is_empty());
}

#[test]
fn completions_are_read() {
    let full = ChatCompletion {
        choices: vec![Choice {
            content: Some("hi".to_string()),
            tool_calls: Some(vec![ApiToolCall {
                id: "c".to_string(),
                name: "shell".to_string(),
                arguments: r#"{"command":"ls"}"#.to_string(),
            }]),
            finish_reason: Some("tool_calls".to_string()),
        }],
        usage: Some(Usage {
            total_tokens: Some(10),
            prompt_tokens: Some(7),
            completion_tokens: Some(3),
        }),
    };
    let r = read_completion(full, String::new()).unwrap();
    assert_eq!(r.content, "hi");
    assert_eq!(r.tool_calls[0].arguments.to_text(), r#"{"command":"ls"}"#);
    assert_eq!((r.input_tokens, r.output_tokens, r.total_tokens), (7, 3, 10));

    let empty = ChatCompletion {
        choices: vec![Choice { content: Some(String::new()), tool_calls: None, finish_reason: None }],
        usage: None,
    };
    assert!(matches!(
        read_completion(empty, "raw".to_string()),
        Err(ProviderError::EmptyCompletion { raw }) if raw == "raw"
    ));
    let none = ChatCompletion { choices: vec![], usage: None };
    assert!(read_completion(none, String::new()).is_err());
}

#[test]
fn chat_urls_have_one_slash() {
    assert_eq!(chat_url("http://h/v1"), "http://h/v1/chat/completions");
    assert_eq!(chat_url("http://h/v1/"), "http://h/v1/chat/completions");
}
