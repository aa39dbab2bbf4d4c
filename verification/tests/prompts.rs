use agent_core::hydration::SourceResult;
use agent_core::ir::SourceKind;
use agent_core::json::{parse, Json};
use agent_core::op::ChatMessage;
use agent_core::prompt_ir::{
    compile_prompt_ir, encode_section, estimate_tokens, prompt_hash_parts, CompositionMode,
    ContextStrategy, Observation, Priority, PromptIR, RetrievalMode, RetrievalTiming, Section,
    SectionOrigin, SectionRole, SectionSource, TokenBudget,
};

fn section(role: SectionRole, mode: CompositionMode, label: &str, content: &str) -> Section {
    Section::new(
        label,
        label,
        SectionSource {
            origin: SectionOrigin::User,
            timing: RetrievalTiming::Active,
            metadata: Json::Null,
        },
        role,
        content.to_string(),
        Priority::Low,
        mode,
        None,
        Json::Null,
    )
}

fn recent(content: &str) -> Section {
    Section::passive_temporal("recent", "Recent conversation", content.to_string())
}

#[test]
fn compile_injects_context_into_system_message() {
    let ir = PromptIR::new(vec![ChatMessage::system("system")], vec![recent("hello")], 0).unwrap();

    let prompt = compile_prompt_ir(&ir);

    assert_eq!(prompt.len(), 1);
    let content = prompt[0].content.as_deref().unwrap();
    assert!(content.contains("system"));
    assert!(content.contains("Hydrated context"));
    assert!(content.contains("hello"));
    assert_eq!(content, "system\n\nHydrated context:\n\n## Recent conversation\nhello");
    assert_eq!(prompt[0].id, ir.base_messages[0].id);
}

#[test]
fn trace_can_include_full_content() {
    let ir = PromptIR::new(
        vec![],
        vec![Section::passive_temporal("recent", "Recent", "secret".to_string())],
        0,
    )
    .unwrap();

    assert_eq!(ir.trace(false).sections[0].content, None);
    assert_eq!(ir.trace(true).sections[0].content.as_deref(), Some("secret"));
    assert_eq!(ir.trace(false).sections[0].content_preview, "secret");
    assert_eq!(ir.trace(false).prompt_id.0, ir.id.0);
}

#[test]
fn sections_are_ordered_by_mode_and_keep_their_order() {
    let user = ChatMessage::user("question");
    let id = user.id;
    let mut ir = PromptIR::new(
        vec![user],
        vec![
            section(SectionRole::Context, CompositionMode::Contextual, "d", "4"),
            section(SectionRole::Context, CompositionMode::Additive, "c", "3"),
            section(SectionRole::System, CompositionMode::Hierarchical, "a", "1"),
            section(SectionRole::Developer, CompositionMode::Hierarchical, "b", "2"),
            section(SectionRole::User, CompositionMode::Constraint, "u", "said"),
            section(SectionRole::Assistant, CompositionMode::Constraint, "v", "answered"),
            section(SectionRole::Tool, CompositionMode::Additive, "w", "result"),
        ],
        0,
    )
    .unwrap();
    ir.observation = Some(Observation { content: "seen".to_string() });
    let prompt = compile_prompt_ir(&ir);
    let roles: Vec<&str> = prompt.iter().map(|m| m.role.as_str()).collect();
    assert_eq!(roles, vec!["system", "user", "user", "assistant", "tool", "user"]);
    assert_eq!(
        prompt[0].content.as_deref(),
        Some("Hydrated context:\n\n## a\n1\n\n## b\n2\n\n## c\n3\n\n## d\n4")
    );
    assert_eq!(prompt[1].id, id);
    assert_eq!(prompt[4].tool_call_id.as_deref(), Some("w"));
    assert_eq!(prompt[5].content.as_deref(), Some("seen"));
}

#[test]
fn a_prompt_without_sections_is_its_messages() {
    let ir = PromptIR::new(vec![ChatMessage::user("hi")], vec![], 0).unwrap();
    let prompt = compile_prompt_ir(&ir);
    assert_eq!(prompt.len(), 1);
    assert!(prompt[0].equals(&ir.base_messages[0]));
}

#[test]
fn tokens_are_estimated_from_words_and_bytes() {
    assert_eq!(estimate_tokens(""), 1);
    assert_eq!(estimate_tokens("a b c"), 3);
    assert_eq!(estimate_tokens("  a\tb\n"), 2);
    assert_eq!(estimate_tokens("abcdefghijklmnop"), 4);
    let ir = PromptIR::new(vec![ChatMessage::user("a b")], vec![recent("a b c")], 0).unwrap();
    assert_eq!(ir.meta.total_tokens.0, 5);
}

#[test]
fn prompts_are_known_by_their_content() {
    let message = ChatMessage::user("hi");
    let first = PromptIR::new(vec![message.clone()], vec![recent("x")], 1).unwrap();
    let again = PromptIR::new(vec![message.clone()], vec![recent("x")], 2).unwrap();
    let other = PromptIR::new(vec![message], vec![recent("y")], 1).unwrap();
    assert_eq!(first.id.0, again.id.0);
    assert_ne!(first.id.0, other.id.0);
    assert!(first.id.0.starts_with("sha256:"));
    assert_eq!(first.sections[0].hash.0, first.trace(false).sections[0].hash.0);
}

#[test]
fn sections_and_defaults_have_their_json() {
    assert_eq!(
        encode_section(&section(SectionRole::User, CompositionMode::Additive, "l", "")).to_text(),
        [
            r#"{"id":"l","label":"l","source":{"origin":"User","timing":"Active","metadata":null},"#,
            r#""role":"User","content":"","tokens":1,"priority":"Low","composition":"Additive","#,
            r#""relevance":null,"recency":null,"hash":"sha256:e3b0c44298fc1c149afbf4c8996fb924"#,
            r#"27ae41e4649b934ca495991b7852b855","metadata":null}"#,
        ]
        .concat()
    );
    // The digest of a prompt covers messages, sections, budget and strategy.
    let empty = prompt_hash_parts(
        &vec![],
        &vec![],
        &TokenBudget::default(),
        &ContextStrategy::default(),
    );
    let mut narrow = ContextStrategy::default();
    narrow.semantic_limit = 1;
    let other = prompt_hash_parts(&vec![], &vec![], &TokenBudget::default(), &narrow);
    assert_ne!(empty.0, other.0);
}

#[test]
fn source_results_become_sections() {
    let result = SourceResult {
        source: "memory".to_string(),
        kind: SourceKind::Knowledge,
        content: "fact".to_string(),
        metadata: parse(r#"{"score":0.5}"#).unwrap(),
    };
    let s = Section::from_source_result(
        "id",
        result,
        RetrievalTiming::Passive,
        Some("q".to_string()),
        Some("0.5".to_string()),
    );
    assert_eq!(s.label, "memory");
    assert_eq!(s.relevance.as_deref(), Some("0.5"));
    match s.source.origin {
        SectionOrigin::Retrieval { backend, mode, query, key, score } => {
            assert_eq!(backend, "memory");
            assert_eq!(mode, RetrievalMode::Semantic);
            assert_eq!(query.as_deref(), Some("q"));
            assert_eq!(key, None);
            assert_eq!(score.as_deref(), Some("0.5"));
        }
        other => panic!("{:?}", other),
    }
}
