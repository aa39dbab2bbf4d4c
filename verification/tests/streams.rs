use agent_core::sse::{SseDecoder, SseEvent};

fn parts(events: &[SseEvent]) -> Vec<(Option<String>, String)> {
    events.iter().map(|e| (e.event.clone(), e.data.clone())).collect()
}

#[test]
fn decodes_events_split_across_chunks() {
    let mut decoder = SseDecoder::new();
    assert!(decoder.feed(b"event: message_start\ndata: {\"a\"").is_empty());
    let events = decoder.feed(b":1}\n\ndata: [DONE]\n\n");
    assert_eq!(
        parts(&events),
        vec![
            (Some("message_start".to_string()), r#"{"a":1}"#.to_string()),
            (None, "[DONE]".to_string()),
        ]
    );
}

#[test]
fn joins_multiple_data_lines_and_handles_crlf() {
    let mut decoder = SseDecoder::new();
    let events = decoder.feed(b"data: one\r\ndata: two\r\n\r\n");
    assert_eq!(events.len(), 1);
    assert_eq!(events[0].data, "one\ntwo");
}

#[test]
fn ignores_comments_and_blank_keepalives() {
    let mut decoder = SseDecoder::new();
    assert!(decoder.feed(b": keepalive\n\n\n\n").is_empty());
}

#[test]
fn survives_utf8_split_across_chunks() {
    let mut decoder = SseDecoder::new();
    let text = "data: h\u{e9}llo\n\n".as_bytes();
    // Split in the middle of the two-byte character.
    let split = text.iter().position(|&b| b == 0xc3).unwrap() + 1;
    assert!(decoder.feed(&text[..split]).is_empty());
    let events = decoder.feed(&text[split..]);
    assert_eq!(events[0].data, "h\u{e9}llo");
}

#[test]
fn chunk_borders_do_not_matter() {
    let stream = b"event: a\ndata: 1\n\n: c\ndata: 2\ndata: 3\n\ndata: open".to_vec();
    let mut whole = SseDecoder::new();
    let all = parts(&whole.feed(&stream));
    assert_eq!(all.len(), 2);
    for i in 0..stream.len() {
        let mut decoder = SseDecoder::new();
        let mut got = parts(&decoder.feed(&stream[..i]));
        got.extend(parts(&decoder.feed(&stream[i..])));
        assert_eq!(got, all);
    }
    // Bytes that are no UTF-8 are replaced.
    let mut broken = SseDecoder::new();
    assert_eq!(broken.feed(b"data: \xff\n\n")[0].data, "\u{fffd}");
}

#[test]
fn decoded_lines_are_taken_one_by_one() {
    let mut decoder = SseDecoder::new();
    assert!(decoder.accept_line("event: note").is_none());
    assert!(decoder.accept_line("data: one").is_none());
    assert!(decoder.accept_line(": comment").is_none());
    assert!(decoder.accept_line("data:two").is_none());
    assert!(decoder.accept_line("retry: 3").is_none());
    let event = decoder.accept_line("").unwrap();
    assert_eq!((event.event.as_deref(), event.data.as_str()), (Some("note"), "one\ntwo"));
    assert!(decoder.accept_line("").is_none());
}
