use agent_core::json::{parse, Json};
use agent_core::output_contract::{
    output_contract_failure, validate, OutputContract, OutputContractFailure, DEFAULT_MAX_REPAIRS,
};

fn json(text: &str) -> Json {
    parse(text).unwrap()
}

fn errors(schema: &str, value: &str) -> Vec<String> {
    validate(&json(schema), &json(value))
}

#[test]
fn valid_object_passes() {
    let schema =
        r#"{"type":"object","required":["answer"],"properties":{"answer":{"type":"integer"}}}"#;
    assert!(errors(schema, r#"{"answer":42}"#).is_empty());
}

#[test]
fn type_mismatches_are_reported_with_paths() {
    let schema = r#"{"type":"object","properties":{"answer":{"type":"integer"}}}"#;
    let errors = errors(schema, r#"{"answer":"forty-two"}"#);
    assert_eq!(errors.len(), 1);
    assert!(errors[0].contains("$.answer"), "{errors:?}");
    assert!(errors[0].contains("integer"), "{errors:?}");
    assert_eq!(errors[0], "$.answer: expected type integer, got string");
}

#[test]
fn missing_required_property_is_reported() {
    let errors = errors(r#"{"type":"object","required":["a","b"]}"#, r#"{"a":1}"#);
    assert_eq!(errors, vec!["$: missing required property \"b\""]);
}

#[test]
fn items_recurse_into_array_elements() {
    let schema = r#"{"type":"array","items":{"type":"object","required":["id"]}}"#;
    let errors = errors(schema, r#"[{"id":1},{}]"#);
    assert_eq!(errors, vec!["$[1]: missing required property \"id\""]);
}

#[test]
fn enum_membership_is_deep_equality() {
    let schema = r#"{"enum":["red","green"]}"#;
    assert!(errors(schema, r#""red""#).is_empty());
    let errors = errors(schema, r#""blue""#);
    assert_eq!(errors.len(), 1);
    assert!(errors[0].contains("enum"), "{errors:?}");
}

#[test]
fn type_arrays_accept_any_listed_type() {
    let schema = r#"{"type":["string","null"]}"#;
    assert!(errors(schema, r#""x""#).is_empty());
    assert!(errors(schema, "null").is_empty());
    assert_eq!(errors(schema, "1").len(), 1);
}

#[test]
fn integer_accepts_zero_fraction_floats_and_rejects_others() {
    let schema = r#"{"type":"integer"}"#;
    assert!(errors(schema, "3").is_empty());
    assert!(errors(schema, "3.0").is_empty());
    assert_eq!(errors(schema, "3.5").len(), 1);
}

#[test]
fn unknown_keywords_are_ignored() {
    let schema = r#"{"type":"string","pattern":"^[0-9]+$","minLength":99}"#;
    assert!(errors(schema, r#""abc""#).is_empty());
}

#[test]
fn unknown_type_name_fails_loudly() {
    assert_eq!(errors(r#"{"type":"strng"}"#, r#""x""#).len(), 1);
}

#[test]
fn validate_text_reports_non_json() {
    let contract = OutputContract::new(json(r#"{"type":"object"}"#));
    let errors = contract.validate_text("not json at all");
    assert_eq!(errors.len(), 1);
    assert!(errors[0].contains("not valid JSON"), "{errors:?}");
    assert!(contract.validate_text("{}").is_empty());
}

#[test]
fn schema_hash_is_key_order_independent() {
    let a = OutputContract::new(json(r#"{"type":"object","required":["x"]}"#));
    let b = OutputContract::new(json(r#"{ "required": ["x"], "type": "object" }"#));
    assert_eq!(a.schema_hash(), b.schema_hash());
    assert!(a.schema_hash().starts_with("sha256:"));
    let c = OutputContract::new(json(r#"{"type":"array"}"#));
    assert_ne!(a.schema_hash(), c.schema_hash());
    assert_eq!(a.max_repairs, DEFAULT_MAX_REPAIRS);
}

#[test]
fn failure_value_round_trips() {
    let failure = OutputContractFailure {
        attempts: 3,
        errors: vec!["$: missing required property \"a\"".to_string()],
        content: "{}".to_string(),
    };
    let value = failure.into_value();
    let back = output_contract_failure(&value).unwrap();
    assert_eq!(back.attempts, 3);
    assert_eq!(back.errors, vec!["$: missing required property \"a\"".to_string()]);
    assert_eq!(back.content, "{}");
    // Ordinary responses and effect errors are not taken for failures.
    assert!(output_contract_failure(&json(r#"{"content":"hi"}"#)).is_none());
    assert!(output_contract_failure(&json(r#"{"ok":false,"error":"boom"}"#)).is_none());
}
