use agent_core::effect::{effect_location, DynamicPath, EffectLocation, EffectSite};
use agent_core::ir::{BlockId, EffectKind};
use agent_core::json::{get_field, parse, Json};
use agent_core::public_trace::{
    public_event, PublicEvent, PublicStatus, PUBLIC_SCHEMA_VERSION,
};
use agent_core::trace::{Event, Pricing, RunUsage};

fn json(text: &str) -> Json {
    parse(text).unwrap()
}

fn attr(public: &PublicEvent, name: &str) -> Option<String> {
    get_field(&public.attrs, name).map(|v| v.to_text())
}

fn text(s: &str) -> Option<String> {
    Some(Json::text(s).to_text())
}

fn test_effect_location() -> EffectLocation {
    effect_location(
        "sha256:p".to_string(),
        EffectKind::Eval,
        EffectSite { block: BlockId(0), instruction_index: 1 },
        DynamicPath::at_entry(0),
    )
}

#[test]
fn every_variant_projects_or_is_explicitly_private() {
    let ts: i128 = 0;
    let run = "run";
    let events: Vec<(Event, Option<&str>)> = vec![
        (
            Event::InferCall {
                run_id: run.to_string(),
                op_id: 1,
                parent_op_id: None,
                model: "mock".to_string(),
                prompt: None,
                prompt_preview: "hi".to_string(),
                effect: None,
                timestamp: ts,
            },
            Some("infer.started"),
        ),
        (
            Event::InferResult {
                run_id: run.to_string(),
                op_id: 1,
                parent_op_id: None,
                response: None,
                response_preview: "ok".to_string(),
                input_tokens: 1,
                output_tokens: 2,
                total_tokens: 3,
                cached_input_tokens: None,
                cost_micro_usd: None,
                pricing: None,
                duration_ms: 4,
                timestamp: ts,
            },
            Some("infer.completed"),
        ),
        (
            Event::InferError {
                run_id: run.to_string(),
                op_id: 1,
                parent_op_id: None,
                error: "boom".to_string(),
                duration_ms: 4,
                timestamp: ts,
            },
            Some("infer.failed"),
        ),
        (
            Event::EvalCall {
                run_id: run.to_string(),
                op_id: 2,
                parent_op_id: None,
                command: "true".to_string(),
                argv: None,
                cwd: None,
                env_policy: "inherit".to_string(),
                timeout_ms: 1000,
                effect: None,
                timestamp: ts,
            },
            Some("eval.started"),
        ),
        (
            Event::EvalResult {
                run_id: run.to_string(),
                op_id: 2,
                parent_op_id: None,
                command: "true".to_string(),
                result: json(r#"{ "ok": true, "status": 0 }"#),
                duration_ms: 1,
                truncated_stdout: false,
                truncated_stderr: false,
                timestamp: ts,
            },
            Some("eval.completed"),
        ),
        (
            Event::EvalError {
                run_id: run.to_string(),
                op_id: 2,
                parent_op_id: None,
                command: "true".to_string(),
                error: "spawn failed".to_string(),
                duration_ms: 1,
                timestamp: ts,
            },
            Some("eval.failed"),
        ),
        (
            Event::RetrieveCall {
                run_id: run.to_string(),
                op_id: 3,
                parent_op_id: None,
                query: "q".to_string(),
                kind: None,
                max_bytes: None,
                effect: None,
                timestamp: ts,
            },
            Some("retrieve.started"),
        ),
        (
            Event::RetrieveResult {
                run_id: run.to_string(),
                op_id: 3,
                parent_op_id: None,
                results: Json::Null,
                result_preview: "r".to_string(),
                source_count: 1,
                bytes: 2,
                duration_ms: 3,
                timestamp: ts,
            },
            Some("retrieve.completed"),
        ),
        (
            Event::RetrieveError {
                run_id: run.to_string(),
                op_id: 3,
                parent_op_id: None,
                error: "source error".to_string(),
                duration_ms: 3,
                timestamp: ts,
            },
            Some("retrieve.failed"),
        ),
        (
            Event::StoreCall {
                run_id: run.to_string(),
                op_id: 4,
                parent_op_id: None,
                sink: "memory".to_string(),
                store_op: "create".to_string(),
                store_id: None,
                item_preview: "item".to_string(),
                content_hash: "sha256:x".to_string(),
                effect: None,
                timestamp: ts,
            },
            Some("store.started"),
        ),
        (
            Event::StoreResult {
                run_id: run.to_string(),
                op_id: 4,
                parent_op_id: None,
                sink: "memory".to_string(),
                sink_id: "id-1".to_string(),
                duration_ms: 1,
                timestamp: ts,
            },
            Some("store.completed"),
        ),
        (
            Event::StoreError {
                run_id: run.to_string(),
                op_id: 4,
                parent_op_id: None,
                sink: "memory".to_string(),
                error: "sink error".to_string(),
                duration_ms: 1,
                timestamp: ts,
            },
            Some("store.failed"),
        ),
        (
            Event::ToolCall {
                run_id: run.to_string(),
                op_id: 6,
                parent_op_id: None,
                name: "lookup".to_string(),
                arguments: json(r#"{ "city": "sf" }"#),
                effect: None,
                timestamp: ts,
            },
            Some("tool.requested"),
        ),
        (
            Event::ToolResult {
                run_id: run.to_string(),
                op_id: 6,
                parent_op_id: None,
                name: "lookup".to_string(),
                result: json(r#"{ "temp": 61 }"#),
                result_preview: "{\"temp\":61}".to_string(),
                duration_ms: 1,
                timestamp: ts,
            },
            Some("tool.completed"),
        ),
        (
            Event::ToolError {
                run_id: run.to_string(),
                op_id: 6,
                parent_op_id: None,
                name: "lookup".to_string(),
                error: "handler error".to_string(),
                duration_ms: 1,
                timestamp: ts,
            },
            Some("tool.failed"),
        ),
        (
            Event::AgentDone {
                run_id: run.to_string(),
                usage: None,
                timestamp: ts,
            },
            Some("run.completed"),
        ),
        (
            Event::HydrationStart {
                run_id: run.to_string(),
                op_id: 5,
                parent_op_id: None,
                sources: vec![],
                max_bytes: None,
                timestamp: ts,
            },
            None,
        ),
        (
            Event::HydrationSection {
                run_id: run.to_string(),
                op_id: 5,
                parent_op_id: None,
                source: "s".to_string(),
                kind: "k".to_string(),
                bytes: 0,
                content_preview: String::new(),
                metadata: Json::Null,
                timestamp: ts,
            },
            None,
        ),
        (
            Event::HydrationEnd {
                run_id: run.to_string(),
                op_id: 5,
                parent_op_id: None,
                section_count: 0,
                total_bytes: 0,
                timestamp: ts,
            },
            None,
        ),
        (
            Event::ParStart {
                run_id: run.to_string(),
                op_id: 6,
                parent_op_id: None,
                branch_count: 2,
                timestamp: ts,
            },
            None,
        ),
        (
            Event::ParEnd {
                run_id: run.to_string(),
                op_id: 6,
                parent_op_id: None,
                branch_count: 2,
                duration_ms: 1,
                timestamp: ts,
            },
            None,
        ),
        (
            Event::Checkpoint {
                run_id: run.to_string(),
                name: "c".to_string(),
                path: None,
                timestamp: ts,
            },
            None,
        ),
        (
            Event::TurnBudgetExhausted {
                run_id: run.to_string(),
                max_turns: 1,
                pending_tool_calls: 0,
                first_tool: None,
                timestamp: ts,
            },
            None,
        ),
        (
            Event::ApprovalRequested {
                run_id: run.to_string(),
                pending_id: "pa-abc".to_string(),
                kind: "eval".to_string(),
                request: json(r#"{ "command": "echo hi", "argv": null }"#),
                effect: test_effect_location(),
                timestamp: ts,
            },
            Some("approval.requested"),
        ),
        (
            Event::ApprovalResolved {
                run_id: run.to_string(),
                pending_id: "pa-abc".to_string(),
                effect_id: "sha256:e".to_string(),
                kind: "eval".to_string(),
                decision: "denied".to_string(),
                resolved_by: Some("ben".to_string()),
                reason: Some("not on prod".to_string()),
                timestamp: ts,
            },
            Some("approval.resolved"),
        ),
        (
            Event::Custom {
                run_id: run.to_string(),
                name: "gc_collect".to_string(),
                data: Json::Null,
                timestamp: ts,
            },
            None,
        ),
        (
            Event::Custom {
                run_id: run.to_string(),
                name: "output_validation_failed".to_string(),
                data: json(r#"{ "attempt": 1, "errors": ["$: missing required property \"a\""], "preview": "{}" }"#),
                timestamp: ts,
            },
            Some("output.validation_failed"),
        ),
        (
            Event::Custom {
                run_id: run.to_string(),
                name: "output_contract".to_string(),
                data: json(r#"{ "schema_hash": "sha256:x", "max_repairs": 2 }"#),
                timestamp: ts,
            },
            None,
        ),
    ];
    for (event, expected) in &events {
        let projected = public_event(event);
        assert_eq!(
            projected.as_ref().map(|public| public.event.as_str()),
            *expected,
            "projection decision changed for {event:?}"
        );
        if let Some(public) = projected {
            assert_eq!(public.schema_version, PUBLIC_SCHEMA_VERSION);
            assert_eq!(public.session_id, public.run_id);
            assert_eq!(public.error.is_some(), public.status == PublicStatus::Failed);
            // Reserved fields are not emitted.
            assert_eq!(public.turn_id, None);
            assert_eq!(public.parent_effect_id, None);
            assert_eq!(public.payload_ref, None);
        }
    }
}

#[test]
fn approval_events_project_with_pending_id_correlation() {
    let ts: i128 = 0;
    let requested = public_event(&Event::ApprovalRequested {
        run_id: "run".to_string(),
        pending_id: "pa-abc".to_string(),
        kind: "eval".to_string(),
        request: json(r#"{ "command": "rm -rf /tmp/x", "argv": null }"#),
        effect: test_effect_location(),
        timestamp: ts,
    })
    .expect("public");
    assert_eq!(requested.event, "approval.requested");
    assert_eq!(requested.status, PublicStatus::Started);
    assert_eq!(requested.op_id, None);
    assert_eq!(
        requested.effect.as_ref().map(|effect| effect.effect_id.clone()),
        Some(test_effect_location().effect_id)
    );
    assert_eq!(attr(&requested, "kind"), text("eval"));
    assert_eq!(attr(&requested, "pending_id"), text("pa-abc"));
    assert_eq!(
        requested.payload_preview.as_deref(),
        Some(r#"{"argv":null,"command":"rm -rf /tmp/x"}"#)
    );

    let resolved = public_event(&Event::ApprovalResolved {
        run_id: "run".to_string(),
        pending_id: "pa-abc".to_string(),
        effect_id: test_effect_location().effect_id,
        kind: "eval".to_string(),
        decision: "denied".to_string(),
        resolved_by: Some("ben".to_string()),
        reason: Some("not on prod".to_string()),
        timestamp: ts,
    })
    .expect("public");
    assert_eq!(resolved.event, "approval.resolved");
    assert_eq!(resolved.status, PublicStatus::Completed);
    assert_eq!(resolved.error, None, "a denial is a value, not a failure");
    assert_eq!(resolved.op_id, None);
    assert_eq!(attr(&resolved, "decision"), text("denied"));
    assert_eq!(attr(&resolved, "pending_id"), text("pa-abc"));
    assert_eq!(
        attr(&resolved, "effect_id"),
        requested.effect.as_ref().and_then(|effect| text(&effect.effect_id))
    );
    assert_eq!(attr(&resolved, "resolved_by"), text("ben"));
    assert_eq!(attr(&resolved, "reason"), text("not on prod"));
}

fn usage() -> RunUsage {
    RunUsage {
        infer_calls: 0,
        input_tokens: 0,
        output_tokens: 0,
        total_tokens: 0,
        cached_input_tokens: None,
        cost_micro_usd: None,
        uncosted_infer_calls: 0,
        failed_infer_calls: 0,
    }
}

fn number(n: i128) -> Option<String> {
    Some(Json::Int(n).to_text())
}

#[test]
fn cost_fields_project_into_infer_completed_and_run_completed_attrs() {
    let ts: i128 = 0;
    let costed = Event::InferResult {
        run_id: "run".to_string(),
        op_id: 1,
        parent_op_id: None,
        response: None,
        response_preview: "ok".to_string(),
        input_tokens: 7,
        output_tokens: 3,
        total_tokens: 10,
        cached_input_tokens: Some(2),
        cost_micro_usd: Some(66),
        pricing: Some(Pricing {
            input_micro_usd_per_mtok: 3_000_000,
            output_micro_usd_per_mtok: 15_000_000,
        }),
        duration_ms: 4,
        timestamp: ts,
    };
    let public = public_event(&costed).expect("projects");
    assert_eq!(attr(&public, "cached_input_tokens"), number(2));
    assert_eq!(attr(&public, "cost_micro_usd"), number(66));
    assert_eq!(
        attr(&public, "pricing"),
        Some(
            json(r#"{"input_micro_usd_per_mtok":3000000,"output_micro_usd_per_mtok":15000000}"#)
                .to_text()
        )
    );

    let done = Event::AgentDone {
        run_id: "run".to_string(),
        usage: Some(RunUsage {
            infer_calls: 2,
            input_tokens: 14,
            output_tokens: 6,
            total_tokens: 20,
            cached_input_tokens: None,
            cost_micro_usd: Some(132),
            uncosted_infer_calls: 1,
            failed_infer_calls: 0,
        }),
        timestamp: ts,
    };
    let public = public_event(&done).expect("projects");
    assert_eq!(public.event, "run.completed");
    assert_eq!(attr(&public, "infer_calls"), number(2));
    assert_eq!(attr(&public, "input_tokens"), number(14));
    assert_eq!(attr(&public, "output_tokens"), number(6));
    assert_eq!(attr(&public, "total_tokens"), number(20));
    assert_eq!(attr(&public, "cost_micro_usd"), number(132));
    assert_eq!(attr(&public, "uncosted_infer_calls"), number(1));
    // What was never reported stays absent.
    assert_eq!(attr(&public, "cached_input_tokens"), None);
    assert_eq!(attr(&public, "failed_infer_calls"), None);

    let with_failures = Event::AgentDone {
        run_id: "run".to_string(),
        usage: Some(RunUsage { failed_infer_calls: 3, ..usage() }),
        timestamp: ts,
    };
    let public = public_event(&with_failures).expect("projects");
    assert_eq!(attr(&public, "failed_infer_calls"), number(3));

    let bare = Event::AgentDone { run_id: "run".to_string(), usage: None, timestamp: ts };
    assert!(public_event(&bare).expect("projects").attrs.is_empty());
}

#[test]
fn output_validation_failed_projects_fields() {
    let event = Event::Custom {
        run_id: "run".to_string(),
        name: "output_validation_failed".to_string(),
        data: json(
            r#"{
                "attempt": 2,
                "errors": ["$.answer: expected type integer, got string", "$: second"],
                "preview": "{\"answer\":\"x\"}"
            }"#,
        ),
        timestamp: 0,
    };
    let public = public_event(&event).expect("projects");
    assert_eq!(public.event, "output.validation_failed");
    assert_eq!(public.status, PublicStatus::Failed);
    assert_eq!(public.error.as_deref(), Some("$.answer: expected type integer, got string"));
    assert_eq!(public.payload_preview.as_deref(), Some("{\"answer\":\"x\"}"));
    assert_eq!(attr(&public, "attempt"), number(2));
    assert_eq!(
        attr(&public, "errors"),
        Some(json(r#"["$.answer: expected type integer, got string","$: second"]"#).to_text())
    );
    assert_eq!(public.op_id, None);
}
