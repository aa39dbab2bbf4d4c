use agent_core::json::{parse, Json};
use agent_core::models::{
    expand_api_key, KeySource, ModelEntry, ModelError, ModelRegistry,
};
use agent_core::tool::{
    ir_tool_specs, is_reserved, offered, reserved_tool_names, NativeTool, ToolGuidance,
    ToolRegistry,
};
use agent_core::tools::{shell_answer, shell_command, standard_tools, StandardTool};

fn json(text: &str) -> Json {
    parse(text).unwrap()
}

fn tool(name: &str) -> NativeTool {
    NativeTool::new(name.to_string(), "test tool".to_string(), json(r#"{"type":"object"}"#))
}

fn guidance() -> ToolGuidance {
    ToolGuidance {
        infer: "infer".to_string(),
        infer_context_refs: "refs".to_string(),
        remember: "remember".to_string(),
        recall: "recall".to_string(),
    }
}

#[test]
fn registry_rejects_reserved_duplicate_and_empty_names() {
    let mut registry = ToolRegistry::new();
    for reserved in reserved_tool_names() {
        let err = registry.register(tool(&reserved)).unwrap_err().message();
        assert!(err.contains("reserved"), "{err}");
        assert!(is_reserved(&reserved));
    }
    let err = registry.register(tool("")).unwrap_err().message();
    assert!(err.contains("non-empty"), "{err}");
    registry.register(tool("lookup")).unwrap();
    let err = registry.register(tool("lookup")).unwrap_err().message();
    assert!(err.contains("already registered"), "{err}");
    assert!(registry.get("lookup").is_some());
    assert!(registry.get("other").is_none());
}

#[test]
fn specs_are_name_ordered() {
    let mut registry = ToolRegistry::new();
    assert!(registry.is_empty());
    registry.register(tool("zeta")).unwrap();
    registry.register(tool("alpha")).unwrap();
    assert_eq!(registry.names(), vec!["alpha", "zeta"]);
    let specs = registry.specs();
    assert_eq!(specs[0].function.name, "alpha");
    assert_eq!(specs[1].function.name, "zeta");
}

#[test]
fn memory_tools_ride_with_backend_registration() {
    let names = |memory: bool| -> Vec<String> {
        ir_tool_specs(memory, &ToolRegistry::new(), &guidance())
            .iter()
            .map(|spec| spec.function.name.clone())
            .collect()
    };
    assert_eq!(names(false), vec!["shell", "infer"]);
    assert_eq!(names(true), vec!["shell", "infer", "remember", "recall"]);
}

#[test]
fn tool_lists_narrow_the_offer() {
    let mut registry = ToolRegistry::new();
    registry.register(tool("lookup")).unwrap();
    let all = ir_tool_specs(true, &registry, &guidance());
    let names = |list: Option<Vec<String>>| -> Vec<String> {
        offered(&all, &list).iter().map(|s| s.function.name.clone()).collect()
    };
    assert_eq!(names(None), vec!["shell", "infer", "remember", "recall", "lookup"]);
    assert_eq!(names(Some(vec!["shell".to_string()])), vec!["shell"]);
    assert!(names(Some(vec![])).is_empty());
}

#[test]
fn standard_tools_are_shell_plus_agentd_hooks() {
    let tools = standard_tools();
    let mut names = tools.iter().map(|(name, _)| name.clone()).collect::<Vec<_>>();
    names.sort();
    assert_eq!(names, ["notify", "shell", "skill", "stop"]);
    for (name, tool) in &tools {
        assert_eq!(name, tool.name());
        assert!(!tool.description().is_empty());
        assert_eq!(tool.parameters().get_str("type"), Some("object"));
    }
}

#[test]
fn shell_arguments_and_answers_are_framed() {
    assert_eq!(shell_command(&json(r#"{"command":"ls"}"#)).unwrap(), "ls");
    assert!(shell_command(&json("{}")).is_err());
    let answer = shell_answer(Some(0), "tool-ok", "");
    assert_eq!(answer.get_str("stdout"), Some("tool-ok"));
    assert_eq!(answer.get("status").unwrap().to_text(), "0");
}

const MODELS: &str = r#"
default_model: parasail/qwen3-235b
models:
- name: parasail/qwen3-235b
  provider: openai-compatible
  base_url: https://api.parasail.io/v1
  api_key: literal-key
  api_id: parasail-qwen3-235b-a22b-instruct-2507
  input: 0.5
  output: 2.0
  context: 131072
  thinking: false
  vision: false
  display: Qwen3 235B (parasail)
- name: direct-name
  provider: openai-compatible
  input: 1.0
  output: 1.0
"#;

fn registry() -> ModelRegistry {
    let doc: serde_yaml::Value = serde_yaml::from_str(MODELS).unwrap();
    let text = |v: &serde_yaml::Value, key: &str| {
        v.get(key).and_then(|x| x.as_str()).map(|s| s.to_string())
    };
    let models = doc
        .get("models")
        .and_then(|m| m.as_sequence())
        .unwrap()
        .iter()
        .map(|m| ModelEntry {
            name: text(m, "name").unwrap(),
            provider: text(m, "provider").unwrap(),
            base_url: text(m, "base_url"),
            api_key: text(m, "api_key"),
            api_id: text(m, "api_id"),
            input: format!("{}", m.get("input").and_then(|x| x.as_f64()).unwrap()),
            output: format!("{}", m.get("output").and_then(|x| x.as_f64()).unwrap()),
            context: m.get("context").and_then(|x| x.as_u64()).unwrap_or(200_000) as usize,
            thinking: m.get("thinking").and_then(|x| x.as_bool()).unwrap_or(false),
            vision: m.get("vision").and_then(|x| x.as_bool()).unwrap_or(false),
            display: text(m, "display"),
        })
        .collect();
    ModelRegistry { default_model: text(&doc, "default_model").unwrap(), models }
}

#[test]
fn parses_and_resolves_alias_to_api_id() {
    let resolved = registry().resolve(Some("parasail/qwen3-235b"), None).unwrap();

    assert_eq!(resolved.alias, "parasail/qwen3-235b");
    assert_eq!(resolved.api_id, "parasail-qwen3-235b-a22b-instruct-2507");
    assert_eq!(resolved.base_url.as_deref(), Some("https://api.parasail.io/v1"));
    assert_eq!(resolved.api_key.as_deref(), Some("literal-key"));
}

#[test]
fn default_model_and_unknown_alias_are_supported() {
    let registry = registry();
    assert_eq!(
        registry.resolve(None, None).unwrap().api_id,
        "parasail-qwen3-235b-a22b-instruct-2507"
    );
    assert_eq!(registry.resolve(Some("unknown/model"), None).unwrap().api_id, "unknown/model");
    assert_eq!(registry.resolve(Some("direct-name"), None).unwrap().api_id, "direct-name");
}

#[test]
fn keys_may_come_from_the_environment() {
    let mut registry = registry();
    registry.models[0].api_key = Some("$KEY".to_string());
    match registry.api_key_source(None) {
        Ok(KeySource::Env(name)) => assert_eq!(name, "KEY"),
        other => panic!("{:?}", other),
    }
    let resolved = registry.resolve(None, Some("value".to_string())).unwrap();
    assert_eq!(resolved.api_key.as_deref(), Some("value"));
    assert!(matches!(registry.resolve(None, None), Err(ModelError::Unset(name)) if name == "KEY"));
    assert!(matches!(expand_api_key(&None), Ok(KeySource::Missing)));
    assert!(matches!(expand_api_key(&Some("$".to_string())), Err(ModelError::EmptyReference)));
    assert!(matches!(expand_api_key(&Some("k".to_string())), Ok(KeySource::Literal(k)) if k == "k"));
}

#[test]
fn standard_tools_answer_as_hooks() {
    let args = json(r#"{"text":"hi"}"#);
    assert_eq!(
        StandardTool::Notify.stub_answer(&args).unwrap().to_text(),
        r#"{"args":{"text":"hi"},"ok":true,"stub":true,"tool":"notify"}"#
    );
    let skill = StandardTool::Skill.stub_answer(&args).unwrap();
    assert_eq!(skill.get("ok").unwrap().as_bool(), Some(false));
    assert_eq!(StandardTool::Stop.stub_answer(&args).unwrap().get_str("tool"), Some("stop"));
    assert!(StandardTool::Shell.stub_answer(&args).is_none());
}
