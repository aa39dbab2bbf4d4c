use agent_core::codec::{
    decode_call, decode_message, decode_messages, encode_call, encode_message, encode_messages,
    encode_response,
};
use agent_core::json::{parse, same_json, Json};
use agent_core::op::{
    after_history, after_response, after_result, after_write, close_pending_tool_calls,
    command_from_tool_call, has_pending_tool_calls, repair_trailing_pending_tool_calls,
    ChatMessage, FinishReason, Prompt, Response, Stage, ToolCall, CONTINUE_NUDGE,
};
use agent_core::text::is_blank;
use agent_core::trace::Pricing;

fn json(text: &str) -> Json {
    parse(text).unwrap()
}

fn call(id: &str, name: &str, arguments: &str) -> ToolCall {
    ToolCall::new(id, name, json(arguments))
}

fn same_call(a: &ToolCall, b: &ToolCall) -> bool {
    a.id == b.id && a.name == b.name && same_json(&a.arguments, &b.arguments)
}

fn error_of(c: &ToolCall) -> String {
    command_from_tool_call(c).unwrap_err().get("error").unwrap().as_str().unwrap().to_string()
}

#[test]
fn tool_call_serializes_neutral_and_deserializes_both_shapes() {
    let c = call("call-1", "shell", r#"{"command":"pwd"}"#);
    let encoded = encode_call(&c);
    assert!(same_json(
        &encoded,
        &json(r#"{"id":"call-1","name":"shell","arguments":{"command":"pwd"}}"#)
    ));
    assert!(same_call(&decode_call(&encoded).unwrap(), &c));

    // The nested shape of older records.
    let legacy = json(
        r#"{"id":"call-1","type":"function","function":{"name":"shell","arguments":"{\"command\":\"pwd\"}"}}"#,
    );
    assert!(same_call(&decode_call(&legacy).unwrap(), &c));
}

#[test]
fn calls_may_be_written_as_rows() {
    let c = call("call-1", "shell", r#"{"command":"pwd"}"#);
    assert!(same_call(&decode_call(&json(r#"["call-1","shell",{"command":"pwd"}]"#)).unwrap(), &c));
    assert!(same_call(
        &decode_call(&json(r#"["call-1",["shell","{\"command\":\"pwd\"}"]]"#)).unwrap(),
        &c
    ));
    assert!(decode_call(&json(r#"["call-1"]"#)).is_none());
    assert!(decode_call(&json(r#"{"id":"call-1"}"#)).is_none());
    assert!(decode_call(&json("3")).is_none());
}

#[test]
fn legacy_tool_call_with_unparseable_arguments_falls_back_to_raw() {
    let legacy = json(
        r#"{"id":"call-1","type":"function","function":{"name":"shell","arguments":"not json"}}"#,
    );
    let decoded = decode_call(&legacy).unwrap();
    assert_eq!(decoded.name, "shell");
    assert!(same_json(&decoded.arguments, &json(r#"{"raw":"not json"}"#)));
}

#[test]
fn chat_message_with_legacy_tool_calls_deserializes() {
    let message = json(
        r#"{
            "id": "f3b9c2d8-1111-2222-3333-444455556666",
            "role": "assistant",
            "content": null,
            "tool_calls": [{
                "id": "call-1",
                "type": "function",
                "function": { "name": "shell", "arguments": "{\"command\":\"pwd\"}" }
            }]
        }"#,
    );
    let decoded = decode_message(&message).unwrap();
    assert_eq!(decoded.id, 0xf3b9c2d8_1111_2222_3333_444455556666);
    let calls = decoded.tool_calls.unwrap();
    assert_eq!(calls[0].name, "shell");
    assert!(same_json(&calls[0].arguments, &json(r#"{"command":"pwd"}"#)));
}

#[test]
fn messages_are_read_back_from_their_json() {
    let list = vec![
        ChatMessage::system("system"),
        ChatMessage::assistant(None, vec![call("call-1", "shell", "{}")]),
        ChatMessage::tool("call-1", "ok"),
    ];
    let encoded = encode_messages(&list);
    let decoded = decode_messages(&encoded).unwrap();
    assert_eq!(encode_messages(&decoded).to_text(), encoded.to_text());
    assert_eq!(decoded[1].id, list[1].id);
    // A message without an identity gets one.
    let bare = decode_message(&json(r#"{"role":"user","content":"hi"}"#)).unwrap();
    assert!(bare.equals(&ChatMessage::user("hi")));
    // What is no message spoils the list.
    assert!(decode_messages(&json(r#"[{"role":"user"},{"content":"hi"}]"#)).is_none());
    assert!(decode_message(&json(r#"{"id":"not a uuid","role":"user"}"#)).is_none());
}

#[test]
fn message_text_holds_its_identity() {
    let mut m = ChatMessage::user("hi");
    m.id = 0xf3b9c2d8_1111_2222_3333_444455556666;
    assert_eq!(
        encode_message(&m).to_text(),
        r#"{"content":"hi","id":"f3b9c2d8-1111-2222-3333-444455556666","role":"user"}"#
    );
}

#[test]
fn chat_message_equality_ignores_stable_id() {
    let a = ChatMessage::user("same content");
    let b = ChatMessage::user("same content");

    assert_ne!(a.id, b.id);
    assert!(a.equals(&b));
    assert!(!a.equals(&ChatMessage::user("other content")));
}

#[test]
fn shell_tool_call_parser_accepts_only_non_empty_shell_command() {
    let valid = call("call-1", "shell", r#"{"command":"printf ok"}"#);
    assert_eq!(command_from_tool_call(&valid).unwrap(), "printf ok");

    let unknown = call("call-2", "echo", r#"{"command":"printf bad"}"#);
    assert_eq!(error_of(&unknown), "unknown_tool");

    let missing = call("call-3", "shell", "{}");
    assert_eq!(error_of(&missing), "invalid_arguments");

    let empty = call("call-4", "shell", r#"{"command":"   "}"#);
    assert_eq!(error_of(&empty), "invalid_arguments");
}

#[test]
fn close_pending_tool_calls_appends_error_results_for_dangling_calls() {
    let mut history = vec![
        ChatMessage::user("work"),
        ChatMessage::assistant(None, vec![call("call-1", "shell", r#"{"command":"pwd"}"#)]),
        ChatMessage::tool("call-1", "ok"),
        ChatMessage::assistant(
            Some("one more".to_string()),
            vec![call("call-2", "shell", r#"{"command":"ls"}"#)],
        ),
    ];

    let closed = close_pending_tool_calls(&mut history);

    assert_eq!(closed, vec!["call-2".to_string()]);
    assert!(!has_pending_tool_calls(&history));
    let result = history.last().unwrap();
    assert_eq!(result.role, "tool");
    assert_eq!(result.tool_call_id.as_deref(), Some("call-2"));
    assert!(result.content.as_deref().unwrap().contains("turn_budget_exhausted"));
}

#[test]
fn close_pending_tool_calls_is_a_noop_on_clean_history() {
    let mut history = vec![
        ChatMessage::user("work"),
        ChatMessage::assistant(Some("done".to_string()), Vec::new()),
    ];
    let before = encode_messages(&history).to_text();

    assert!(close_pending_tool_calls(&mut history).is_empty());
    assert_eq!(encode_messages(&history).to_text(), before);
}

#[test]
fn repair_trailing_pending_tool_calls_drops_to_clean_prefix() {
    let prompt = vec![
        ChatMessage::system("system"),
        ChatMessage::user("first"),
        ChatMessage::assistant(None, vec![call("call-1", "shell", r#"{"command":"printf ok"}"#)]),
        ChatMessage::tool("call-1", "ok"),
        ChatMessage::user("second"),
        ChatMessage::assistant(None, vec![call("call-2", "shell", r#"{"command":"pwd"}"#)]),
    ];

    let repaired = repair_trailing_pending_tool_calls(&prompt);

    assert!(!has_pending_tool_calls(&repaired));
    assert_eq!(repaired.len(), 5);
    assert_eq!(repaired.last().unwrap().role, "user");
}

#[test]
fn finish_reasons_are_read() {
    assert!(FinishReason::from_provider("stop").is_stop());
    assert!(!FinishReason::from_provider("length").is_stop());
    assert!(matches!(FinishReason::from_provider("tool_calls"), FinishReason::ToolCalls));
    assert!(matches!(FinishReason::from_provider("content_filter"), FinishReason::ContentFilter));
    match FinishReason::from_provider("weird") {
        FinishReason::Other(name) => assert_eq!(name, "weird"),
        other => panic!("{:?}", other),
    }
}

#[test]
fn json_texts_are_parsed_and_written() {
    let v = json(r#"{"b":[1,2.5,-3,true,null],"a":"q\"\\\nA"}"#);
    assert_eq!(v.to_text(), r#"{"a":"q\"\\\nA","b":[1,2.5,-3,true,null]}"#);
    assert!(parse("{").is_err());
    assert!(parse("").is_err());
    assert_eq!(json("3.0").to_text(), "3.0");
}

fn reply(content: &str, tool_calls: Vec<ToolCall>, finish: FinishReason) -> Response {
    Response {
        content: content.to_string(),
        tool_calls,
        finish_reason: Some(finish),
        input_tokens: 0,
        output_tokens: 0,
        total_tokens: 0,
        cached_input_tokens: None,
        cost_micro_usd: None,
        pricing: None,
        metadata: vec![],
    }
}

/// Runs the stages of the loop against scripted replies; gives the last one
/// and every prompt and command on the way.
fn run_stages(
    mut replies: Vec<Response>,
    prompt: Prompt,
    turns: usize,
) -> (Response, Vec<Prompt>, Vec<String>) {
    replies.reverse();
    let (mut prompts, mut commands) = (vec![], vec![]);
    let mut stored: Option<Prompt> = None;
    let mut stage = Stage::Infer { prompt, turns };
    loop {
        stage = match stage {
            Stage::Infer { prompt, turns } => {
                prompts.push(prompt.clone());
                after_response(prompt, replies.pop().expect("a reply"), turns)
            }
            Stage::ReadHistory { prompt, response, turns } => {
                after_history(prompt, response, turns, stored.clone())
            }
            Stage::Eval { command, history, calls, next, turns } => {
                commands.push(command);
                let result = json(r#"{"ok":true}"#);
                after_result(history, calls, next, turns, &result)
            }
            Stage::WriteHistory { history, turns } => {
                stored = Some(history.clone());
                after_write(history, turns)
            }
            Stage::Done { response } => return (response, prompts, commands),
        }
    }
}

#[test]
fn agent_loop_nudges_empty_non_stop_turn_instead_of_completing() {
    let replies = vec![
        reply("", vec![], FinishReason::Other("length".to_string())),
        reply("done", vec![], FinishReason::Stop),
    ];
    let (response, prompts, _) = run_stages(replies, vec![ChatMessage::user("work")], 3);
    assert_eq!(response.content, "done");
    assert!(matches!(response.finish_reason, Some(FinishReason::Stop)));
    assert_eq!(prompts[1].len(), 2);
    assert_eq!(prompts[1][1].content.as_deref(), Some(CONTINUE_NUDGE));
}

#[test]
fn agent_loop_allows_clean_empty_stop_to_complete() {
    let replies = vec![reply("", vec![], FinishReason::Stop)];
    let (response, prompts, _) = run_stages(replies, vec![ChatMessage::user("work")], 3);
    assert_eq!(response.content, "");
    assert!(matches!(response.finish_reason, Some(FinishReason::Stop)));
    assert_eq!(prompts.len(), 1);
}

#[test]
fn agent_loop_answers_every_call_before_it_goes_on() {
    let calls = vec![
        call("c1", "shell", r#"{"command":"pwd"}"#),
        call("c2", "dance", "{}"),
        call("c3", "shell", r#"{"command":"  "}"#),
        call("c4", "shell", r#"{"command":"ls"}"#),
    ];
    let replies = vec![
        reply("working", calls, FinishReason::ToolCalls),
        reply("done", vec![], FinishReason::Stop),
    ];
    let (response, prompts, commands) = run_stages(replies, vec![ChatMessage::user("work")], 3);
    assert_eq!(response.content, "done");
    assert_eq!(commands, vec!["pwd", "ls"]);
    let second = &prompts[1];
    assert!(!has_pending_tool_calls(second));
    assert_eq!(second.len(), 6);
    assert_eq!(second[1].role, "assistant");
    let answered: Vec<_> = second[2..].iter().map(|m| m.tool_call_id.as_deref()).collect();
    assert_eq!(answered, vec![Some("c1"), Some("c2"), Some("c3"), Some("c4")]);
    assert_eq!(second[2].content.as_deref(), Some(r#"{"ok":true}"#));
    assert!(second[3].content.as_deref().unwrap().contains("unknown_tool"));
    assert!(second[4].content.as_deref().unwrap().contains("invalid_arguments"));
}

#[test]
fn agent_loop_stops_when_its_turns_are_used_up() {
    let calls = vec![call("c1", "shell", r#"{"command":"pwd"}"#)];
    let replies = vec![reply("", calls, FinishReason::ToolCalls)];
    let (response, _, commands) = run_stages(replies, vec![ChatMessage::user("work")], 0);
    assert_eq!(response.tool_calls.len(), 1);
    assert!(commands.is_empty());
}

#[test]
fn responses_are_encoded_with_what_they_have() {
    let mut r = reply("hi", vec![], FinishReason::Stop);
    r.input_tokens = 3;
    let bare = encode_response(&r);
    for absent in ["cached_input_tokens", "cost_micro_usd", "pricing", "metadata"] {
        assert!(bare.get(absent).is_none(), "{absent}");
    }
    r.cached_input_tokens = Some(2);
    r.cost_micro_usd = Some(66);
    r.pricing =
        Some(Pricing { input_micro_usd_per_mtok: 5, output_micro_usd_per_mtok: 7 });
    let full = encode_response(&r);
    assert!(same_json(full.get("cached_input_tokens").unwrap(), &Json::Int(2)));
    assert!(same_json(full.get("cost_micro_usd").unwrap(), &Json::Int(66)));
    assert!(same_json(
        full.get("pricing").unwrap(),
        &json(r#"{"input_micro_usd_per_mtok":5,"output_micro_usd_per_mtok":7}"#)
    ));
}

#[test]
fn blank_is_what_unicode_calls_white_space() {
    let spaces: Vec<u32> = (0..=0x10ffffu32)
        .filter_map(char::from_u32)
        .filter(|c| is_blank(&c.to_string()))
        .map(|c| c as u32)
        .collect();
    let mut expected: Vec<u32> = (0x9..=0xd).collect();
    expected.extend([0x20, 0x85, 0xa0, 0x1680]);
    expected.extend(0x2000..=0x200a);
    expected.extend([0x2028, 0x2029, 0x202f, 0x205f, 0x3000]);
    assert_eq!(spaces, expected);
}
