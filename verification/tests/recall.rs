use agent_core::codec::encode_message;
use agent_core::hydration::{mentions_any, words_of};
use agent_core::json::{parse, Json};
use agent_core::memory::{
    admit_update, check_update, file_text, is_valid_slug, keyword_hits, rank_by_name, retrieve,
    slugify, split_frontmatter, Frontmatter, Hit, Memory, MemoryError, MemoryPayload,
};
use agent_core::op::ChatMessage;
use agent_core::temporal::{latest_checkpoint, serve_turns, CheckpointView, TemporalSource};

fn json(text: &str) -> Json {
    parse(text).unwrap()
}

fn memory(name: &str, description: &str, memory_type: &str, body: &str) -> Memory {
    Memory {
        name: name.to_string(),
        description: description.to_string(),
        memory_type: Some(memory_type.to_string()),
        body: body.to_string(),
    }
}

fn names(metadata: &Json) -> Vec<String> {
    metadata
        .get("memories")
        .unwrap()
        .as_array()
        .unwrap()
        .iter()
        .map(|v| v.as_str().unwrap().to_string())
        .collect()
}

#[test]
fn frontmatter_is_parted_from_the_body() {
    let split = |raw: &str| {
        let (front, body) = split_frontmatter(raw);
        (front, body)
    };
    assert_eq!(split("---\na: 1\n---\nbody"), (Some("a: 1".to_string()), "body".to_string()));
    assert_eq!(
        split("---\r\na: 1\n---\r\nbody"),
        (Some("a: 1".to_string()), "body".to_string())
    );
    assert_eq!(split("---\na: 1\n---"), (Some("a: 1".to_string()), String::new()));
    assert_eq!(split("---\nopen"), (None, "---\nopen".to_string()));
    assert_eq!(split("plain"), (None, "plain".to_string()));
    let head = Frontmatter {
        name: Some("n".to_string()),
        description: None,
        memory_type: Some("t".to_string()),
    };
    let unread = Memory::parse("---\n: no ::\n---\n\n body \n", None, "file".to_string());
    assert_eq!((unread.name.as_str(), unread.body.as_str()), ("file", "---\n: no ::\n---\n\n body"));
    let m = Memory::parse("---\nname: n\n---\n\n body \n", Some(head), "file".to_string());
    assert_eq!((m.name.as_str(), m.body.as_str()), ("n", "body"));
    assert_eq!(m.render(), "### n (t)\nbody");
    assert_eq!(m.embed_text(), "n\n\nbody");
}

#[test]
fn written_files_are_read_back() {
    let front = "name: n\ndescription: d\n";
    let text = file_text(front, "  the fact \n");
    assert_eq!(text, "---\nname: n\ndescription: d\n---\n\nthe fact\n");
    let (head, body) = split_frontmatter(&text);
    assert_eq!(head.as_deref(), Some("name: n\ndescription: d"));
    assert_eq!(body, "\nthe fact\n");
}

#[test]
fn payloads_are_read_by_position_and_by_name() {
    let err = MemoryPayload::parse(&json(r#"{"name":"x"}"#)).unwrap_err().message();
    assert!(err.contains("memory payload must be"), "{err}");
    assert!(MemoryPayload::parse(&json(r#"{"name":1,"body":"b"}"#)).is_err());
    assert!(MemoryPayload::parse(&json("[null,\"d\",null,\"b\"]")).is_ok());
    for bad in ["Upper", "has space", "../escape", "-lead", "trail-", "dot.dot"] {
        let payload = MemoryPayload {
            name: Some(bad.to_string()),
            description: String::new(),
            memory_type: None,
            body: "b".to_string(),
        };
        let err = payload.slug().unwrap_err().message();
        assert!(err.contains("kebab-case"), "{bad}: {err}");
    }
    let nothing = MemoryPayload {
        name: Some(" ".to_string()),
        description: "!!".to_string(),
        memory_type: None,
        body: "??".to_string(),
    };
    assert!(matches!(nothing.slug(), Err(MemoryError::NoName)));
}

#[test]
fn updates_keep_the_name() {
    let payload = |name: Option<&str>| MemoryPayload {
        name: name.map(|n| n.to_string()),
        description: String::new(),
        memory_type: None,
        body: "b".to_string(),
    };
    assert!(check_update("note", &payload(Some("note"))).is_ok());
    assert!(check_update("note", &payload(Some(" "))).is_ok());
    assert!(check_update("note", &payload(None)).is_ok());
    let rename = check_update("note", &payload(Some("other"))).unwrap_err().message();
    assert!(rename.contains("renames"), "{rename}");
    assert!(check_update("No Slug", &payload(None)).is_err());
    let missing = admit_update("note", false).unwrap_err().message();
    assert!(missing.contains("no memory"), "{missing}");
    assert!(admit_update("note", true).is_ok());
}

#[test]
fn slugs_are_short_and_plain() {
    assert_eq!(slugify("  Hello,   World!  "), "hello-world");
    assert_eq!(slugify("\u{e9}\u{e9}"), "");
    let long = slugify(&"abc ".repeat(40));
    assert!(long.len() <= 48 && is_valid_slug(&long), "{long}");
    assert!(!is_valid_slug(""));
}

#[test]
fn closer_memories_come_first() {
    let list = vec![
        memory("a-note", "deploy", "t", "x"),
        memory("b-note", "deploy", "t", "y"),
        memory("c-note", "nothing", "t", "z"),
    ];
    let words = words_of("deploy");
    let mut hits = keyword_hits(&list, &words);
    assert_eq!(hits[0].keyword, 2);
    assert_eq!(hits[2].keyword, 0);
    // With equal keys the name decides; a closer meaning comes first.
    let tie = retrieve(&list, Some("deploy"), &hits, false, 16384);
    assert_eq!(names(&tie.metadata), vec!["a-note", "b-note"]);
    hits[1].key += 1;
    hits[2] = Hit { keyword: 0, close: true, key: 1 };
    let blended = retrieve(&list, Some("deploy"), &hits, true, 16384);
    assert_eq!(names(&blended.metadata), vec!["b-note", "a-note", "c-note"]);
    assert_eq!(blended.metadata.get("semantic").unwrap().as_bool(), Some(true));
}

#[test]
fn memories_are_ordered_by_name() {
    let list = vec![
        memory("z", "", "t", ""),
        memory("a", "1", "t", ""),
        memory("m", "", "t", ""),
        memory("a", "2", "t", ""),
    ];
    assert_eq!(rank_by_name(&list), vec![1, 3, 2, 0]);
}

#[test]
fn short_words_are_dropped_and_case_is_ignored() {
    assert_eq!(words_of("How do I Deploy? of-a KEY_x"), vec!["how", "deploy", "key"]);
    // What counts is characters, not bytes.
    assert!(words_of("\u{e9}a").is_empty());
    assert_eq!(words_of("\u{e9}t\u{e9}"), vec!["\u{e9}t\u{e9}"]);
    assert!(mentions_any("Please DEPLOY now", &words_of("deploy")));
    assert!(!mentions_any("Please wait", &words_of("deploy")));
}

fn checkpoint_json(run_id: &str, sequence: u64, turns: &[(&str, &str)]) -> String {
    let messages: Vec<String> = turns
        .iter()
        .map(|(role, content)| {
            let m = match *role {
                "user" => ChatMessage::user(content),
                "system" => ChatMessage::system(content),
                _ => ChatMessage::assistant(Some(content.to_string()), vec![]),
            };
            encode_message(&m).to_text()
        })
        .collect();
    format!(
        r#"{{"run_id":"{run_id}","sequence":{sequence},"model":"m","provider_url":"https://example.com","messages":[{}],"trace_path":"/tmp/t.jsonl","timestamp":"2026-06-12T00:00:00Z"}}"#,
        messages.join(",")
    )
}

fn temporal() -> TemporalSource {
    TemporalSource::new("sessions".to_string())
}

#[test]
fn serves_recent_turns_from_the_newest_checkpoint() {
    let files = vec![
        checkpoint_json(
            "run-a",
            7,
            &[("user", "refactor the parser"), ("assistant", "done, tests pass")],
        ),
        checkpoint_json("run-a", 3, &[("user", "ancient question")]),
    ];
    let result = temporal().retrieve(&files, None, None);
    assert!(result.content.contains("checkpoint 7"));
    assert!(result.content.contains("- user: refactor the parser"));
    assert!(result.content.contains("- assistant: done, tests pass"));
    assert!(!result.content.contains("ancient"));
    assert_eq!(result.metadata.get("sequence").unwrap().as_u64(), Some(7));
    assert_eq!(
        result.content,
        "### recent session turns (run run-a, checkpoint 7)\n- user: refactor the parser\n\
         - assistant: done, tests pass"
    );
    assert_eq!(result.metadata.to_text(), r#"{"run_id":"run-a","sequence":7,"turns":2}"#);
    assert_eq!(result.source, "temporal-checkpoints");
}

#[test]
fn query_filters_turns_by_keyword() {
    let files = vec![checkpoint_json(
        "run-b",
        1,
        &[
            ("user", "talk about parsers"),
            ("assistant", "parsers are fine"),
            ("user", "now deploy it"),
        ],
    )];
    let result = temporal().retrieve(&files, Some("parser"), None);
    assert!(result.content.contains("talk about parsers"));
    assert!(result.content.contains("parsers are fine"));
    assert!(!result.content.contains("deploy"));
    assert_eq!(result.metadata.get("turns").unwrap().as_u64(), Some(2));
}

#[test]
fn byte_cap_sacrifices_the_oldest_turns() {
    let files = vec![checkpoint_json(
        "run-c",
        1,
        &[
            ("user", &"old ".repeat(40)),
            ("assistant", &"mid ".repeat(40)),
            ("user", "newest question"),
        ],
    )];
    let result = temporal().retrieve(&files, None, Some(80));
    assert!(result.content.contains("newest question"));
    assert!(!result.content.contains("old old"));
}

#[test]
fn every_turn_takes_one_line() {
    let files = vec![checkpoint_json(
        "run-d",
        1,
        &[("user", "first\nsecond\n\nthird"), ("assistant", "  done\n")],
    )];
    let result = temporal().retrieve(&files, None, None);
    assert_eq!(
        result.content,
        "### recent session turns (run run-d, checkpoint 1)\n- user: first second  third\n\
         - assistant: done"
    );
    assert_eq!(result.content.lines().count(), 3);
}

#[test]
fn words_of_two_characters_are_no_query_words() {
    let files = vec![checkpoint_json("r", 1, &[("user", "un b\u{e9}b\u{e9} est n\u{e9}")])];
    let result = temporal().retrieve(&files, Some("n\u{e9} parser"), None);
    assert_eq!(result.content, "");
    assert_eq!(result.metadata.get("turns").unwrap().as_u64(), Some(0));
}

#[test]
fn missing_dir_and_malformed_files_yield_empty_content() {
    let missing = temporal().retrieve(&vec![], None, None);
    assert!(missing.content.is_empty());
    let junk = temporal().retrieve(&vec!["not json".to_string()], None, None);
    assert!(junk.content.is_empty());
    assert_eq!(junk.metadata.get("turns").unwrap().as_u64(), Some(0));
    assert_eq!(junk.metadata.to_text(), r#"{"turns":0}"#);
    assert!(CheckpointView::parse("not json").is_none());
    assert!(CheckpointView::parse(r#"{"run_id":"r","sequence":-1,"messages":[]}"#).is_none());
    assert!(CheckpointView::parse(r#"{"run_id":"r","sequence":1,"messages":[{}]}"#).is_none());
    let c = CheckpointView::parse(
        r#"{"run_id":"r","sequence":3,"messages":[{"role":"user","content":"hi"}]}"#,
    )
    .unwrap();
    assert_eq!((c.sequence, c.messages.len()), (3, 1));
}

#[test]
fn the_last_of_equal_checkpoints_is_the_newest() {
    let files = vec![
        checkpoint_json("run-a", 5, &[("user", "by name the first")]),
        "{}".to_string(),
        checkpoint_json("run-b", 5, &[("user", "by name the last")]),
        checkpoint_json("run-c", 2, &[("user", "older")]),
    ];
    let newest = latest_checkpoint(&files).unwrap();
    assert_eq!((newest.run_id.as_str(), newest.sequence), ("run-b", 5));
    assert!(serve_turns(&newest, &vec![], 0, 1000).content.is_empty());
    assert!(latest_checkpoint(&vec![]).is_none());
}
