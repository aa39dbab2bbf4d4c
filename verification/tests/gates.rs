use agent_core::approval::{
    after_answer, denial_value, is_denial_value, pending_id_for, reach_gate, replay_gate,
    ApprovalDecision, ApprovalKind, ApprovalResolution, GateEvent, GateOutcome, GateStep,
};
use agent_core::effect::{effect_location, ControlPath, DynamicPath, EffectLocation, EffectSite};
use agent_core::interpreter::{
    awaiting_approval_message, collects_again, InMemoryStore, effect_error_value, eval_approval_request,
    infer_lineage, plan_store, store_approval_request, StorePlan,
};
use agent_core::ir::{BlockId, EffectKind, StoreOp};
use agent_core::json::{parse, same_json, Json};
use agent_core::machine::render_argv;
use agent_core::op::{FinishReason, Response};
use agent_core::replay::{IrReplayTrace, IrRetrieveCall, IrStoreCall, ReplayError};
use agent_core::trace::Event;

fn json(text: &str) -> Json {
    parse(text).unwrap()
}

fn location(kind: EffectKind, visit: u64) -> EffectLocation {
    effect_location(
        "sha256:p".to_string(),
        kind,
        EffectSite { block: BlockId(1), instruction_index: 2 },
        DynamicPath::at_entry(visit),
    )
}

fn approved() -> ApprovalResolution {
    ApprovalResolution {
        decision: ApprovalDecision::Approve,
        resolved_by: Some("ben".to_string()),
        reason: None,
    }
}

fn denied() -> ApprovalResolution {
    ApprovalResolution {
        decision: ApprovalDecision::Deny,
        resolved_by: Some("ben".to_string()),
        reason: Some("no".to_string()),
    }
}

fn request() -> Json {
    eval_approval_request("rm x", &None)
}

#[test]
fn effect_identities_tell_visits_and_paths_apart() {
    let a = location(EffectKind::Eval, 0);
    let b = location(EffectKind::Eval, 1);
    let c = location(EffectKind::Infer, 0);
    assert!(a.effect_id.starts_with("sha256:"));
    assert_eq!(a.effect_id, location(EffectKind::Eval, 0).effect_id);
    assert_ne!(a.effect_id, b.effect_id);
    assert_ne!(a.effect_id, c.effect_id);
    let mut left = ControlPath::new();
    let mut right = ControlPath::new();
    left.transition(BlockId(0), 0, BlockId(1));
    right.transition(BlockId(0), 1, BlockId(1));
    assert_eq!(left.at_visit(0).transitions, 1);
    assert_ne!(left.at_visit(0).path, right.at_visit(0).path);
}

#[test]
fn gates_open_close_and_ask() {
    let at = location(EffectKind::Eval, 0);
    assert!(matches!(
        reach_gate("run", &at, ApprovalKind::Eval, request(), false, None),
        GateStep::Open
    ));
    match reach_gate("run", &at, ApprovalKind::Eval, request(), true, Some(&approved())) {
        GateStep::Settled { outcome: GateOutcome::Proceed, event: GateEvent::Resolved { decision, .. } } => {
            assert_eq!(decision, "approved")
        }
        other => panic!("{:?}", other),
    }
    match reach_gate("run", &at, ApprovalKind::Eval, request(), true, Some(&denied())) {
        GateStep::Settled { outcome: GateOutcome::Deny(v), .. } => assert!(is_denial_value(&v)),
        other => panic!("{:?}", other),
    }
    let pending = match reach_gate("run", &at, ApprovalKind::Eval, request(), true, None) {
        GateStep::Ask { pending, .. } => pending,
        other => panic!("{:?}", other),
    };
    assert_eq!(pending.pending_id, pending_id_for("run", &at.effect_id));
    assert!(pending.pending_id.starts_with("pa-"));
    assert_eq!(pending.pending_id.len(), 19);
    assert!(awaiting_approval_message(&pending).contains(&pending.effect.effect_id));
    // Without an answer the effect is not carried out.
    match after_answer(pending.clone(), None) {
        (None, GateOutcome::Pause(p)) => assert_eq!(p.pending_id, pending.pending_id),
        other => panic!("{:?}", other),
    }
    assert!(matches!(
        after_answer(pending.clone(), Some(ApprovalDecision::Approve)),
        (Some(_), GateOutcome::Proceed)
    ));
    assert!(matches!(
        after_answer(pending, Some(ApprovalDecision::Deny)),
        (Some(_), GateOutcome::Deny(_))
    ));
}

#[test]
fn denials_are_values() {
    let v = denial_value("pa-1", &Some("ben".to_string()), &None);
    assert!(is_denial_value(&v));
    assert!(!is_denial_value(&effect_error_value("boom")));
    assert_eq!(effect_error_value("boom").to_text(), r#"{"error":"boom","ok":false}"#);
}

fn resolved(decision: &str, at: &EffectLocation) -> Vec<Event> {
    vec![
        Event::ApprovalRequested {
            run_id: "run".to_string(),
            pending_id: "pa-1".to_string(),
            kind: "eval".to_string(),
            request: request(),
            effect: at.clone(),
            timestamp: 0,
        },
        Event::ApprovalResolved {
            run_id: "run".to_string(),
            pending_id: "pa-1".to_string(),
            effect_id: at.effect_id.clone(),
            kind: "eval".to_string(),
            decision: decision.to_string(),
            resolved_by: None,
            reason: None,
            timestamp: 0,
        },
    ]
}

#[test]
fn recorded_decisions_pass_and_deny() {
    let at = location(EffectKind::Eval, 0);
    let yes = IrReplayTrace::from_events(&resolved("approved", &at)).unwrap();
    match replay_gate(&yes, &at, ApprovalKind::Eval, request(), true) {
        Ok((_, GateOutcome::Proceed)) => {}
        other => panic!("{:?}", other),
    }
    let no = IrReplayTrace::from_events(&resolved("denied", &at)).unwrap();
    match replay_gate(&no, &at, ApprovalKind::Eval, request(), true) {
        Ok((_, GateOutcome::Deny(v))) => assert!(is_denial_value(&v)),
        other => panic!("{:?}", other),
    }
}

#[test]
fn recorded_decisions_are_bound_to_their_request() {
    let at = location(EffectKind::Eval, 0);
    let yes = IrReplayTrace::from_events(&resolved("approved", &at)).unwrap();
    let other = eval_approval_request("rm y", &None);
    match replay_gate(&yes, &at, ApprovalKind::Eval, other, true) {
        Err(ReplayError::RequestDiverged { .. }) => {}
        other => panic!("{:?}", other),
    }
    match replay_gate(&IrReplayTrace::new(), &at, ApprovalKind::Eval, request(), true) {
        Err(ReplayError::NoApproval { .. }) => {}
        other => panic!("{:?}", other),
    }
    assert!(matches!(
        replay_gate(&IrReplayTrace::new(), &at, ApprovalKind::Eval, request(), false),
        Ok((_, GateOutcome::Proceed))
    ));
}

fn infer_events(at: &EffectLocation, answer: Option<Response>, error: Option<&str>) -> Vec<Event> {
    let mut events = vec![Event::InferCall {
        run_id: "run".to_string(),
        op_id: 1,
        parent_op_id: None,
        model: "mock".to_string(),
        prompt: None,
        prompt_preview: String::new(),
        effect: Some(at.clone()),
        timestamp: 0,
    }];
    if let Some(r) = answer {
        events.push(Event::InferResult {
            run_id: "run".to_string(),
            op_id: 1,
            parent_op_id: None,
            response: Some(r),
            response_preview: String::new(),
            input_tokens: 0,
            output_tokens: 0,
            total_tokens: 0,
            cached_input_tokens: None,
            cost_micro_usd: None,
            pricing: None,
            duration_ms: 0,
            timestamp: 0,
        });
    }
    if let Some(e) = error {
        events.push(Event::InferError {
            run_id: "run".to_string(),
            op_id: 1,
            parent_op_id: None,
            error: e.to_string(),
            duration_ms: 0,
            timestamp: 0,
        });
    }
    events
}

fn answer(content: &str) -> Response {
    Response {
        content: content.to_string(),
        tool_calls: vec![],
        finish_reason: Some(FinishReason::Stop),
        input_tokens: 0,
        output_tokens: 0,
        total_tokens: 0,
        cached_input_tokens: None,
        cost_micro_usd: None,
        pricing: None,
        metadata: vec![],
    }
}

#[test]
fn recordings_answer_by_effect_identity() {
    let at = location(EffectKind::Infer, 0);
    let good = IrReplayTrace::from_events(&infer_events(&at, Some(answer("hi")), None)).unwrap();
    assert_eq!(good.infer_result(&at, "mock").unwrap().content, "hi");
    assert!(matches!(good.infer_result(&at, "other"), Err(ReplayError::InferDiverged { .. })));
    assert!(matches!(
        good.infer_result(&location(EffectKind::Infer, 1), "mock"),
        Err(ReplayError::MissingCall { .. })
    ));
    let bad = IrReplayTrace::from_events(&infer_events(&at, None, Some("boom"))).unwrap();
    match bad.infer_result(&at, "mock") {
        Err(e @ ReplayError::Failed { .. }) => assert!(e.message().contains("boom")),
        other => panic!("{:?}", other),
    }
    let open = IrReplayTrace::from_events(&infer_events(&at, None, None)).unwrap();
    assert!(matches!(open.infer_result(&at, "mock"), Err(ReplayError::MissingResult { .. })));
}

#[test]
fn outcomes_may_stand_before_their_calls() {
    let at = location(EffectKind::Infer, 0);
    let mut events = infer_events(&at, Some(answer("hi")), None);
    events.reverse();
    let recording = IrReplayTrace::from_events(&events).unwrap();
    assert_eq!(recording.infer_result(&at, "mock").unwrap().content, "hi");
    let mut events = infer_events(&at, None, Some("boom"));
    events.reverse();
    let recording = IrReplayTrace::from_events(&events).unwrap();
    assert!(matches!(recording.infer_result(&at, "mock"), Err(ReplayError::Failed { .. })));
    // The call of another operation does not take the outcome.
    let mut events = infer_events(&at, Some(answer("hi")), None);
    if let Event::InferCall { op_id, .. } = &mut events[0] {
        *op_id = 2;
    }
    events.reverse();
    let recording = IrReplayTrace::from_events(&events).unwrap();
    assert!(matches!(recording.infer_result(&at, "mock"), Err(ReplayError::MissingResult { .. })));
}

#[test]
fn recordings_may_be_put_in_any_order() {
    let asked = location(EffectKind::Infer, 0);
    let stored = location(EffectKind::Store, 1);
    for turns in 0..4 {
        let mut events = infer_events(&asked, Some(answer("hi")), None);
        events.extend(store_events(&stored));
        events.rotate_left(turns);
        events.swap(0, 2);
        let recording = IrReplayTrace::from_events(&events).unwrap();
        assert_eq!(recording.infer_result(&asked, "mock").unwrap().content, "hi");
        let key = store_call("memory", "sha256:x");
        assert_eq!(recording.store_result(&stored, &key).unwrap(), "note");
    }
}

#[test]
fn outcomes_belong_to_the_call_before_them() {
    let first = location(EffectKind::Infer, 0);
    let second = location(EffectKind::Infer, 1);
    let mut events = infer_events(&first, Some(answer("one")), None);
    events.extend(infer_events(&second, Some(answer("two")), None));
    let recording = IrReplayTrace::from_events(&events).unwrap();
    assert_eq!(recording.infer_result(&first, "mock").unwrap().content, "one");
    assert_eq!(recording.infer_result(&second, "mock").unwrap().content, "two");
}

#[test]
fn recordings_without_identities_are_refused() {
    let at = location(EffectKind::Eval, 0);
    assert!(matches!(
        IrReplayTrace::from_events(&infer_events(&at, None, None)),
        Err(ReplayError::WrongKind { .. })
    ));
    let mut events = infer_events(&location(EffectKind::Infer, 0), None, None);
    if let Event::InferCall { effect, .. } = &mut events[0] {
        *effect = None;
    }
    assert!(matches!(
        IrReplayTrace::from_events(&events),
        Err(ReplayError::NoIdentity { .. })
    ));
}

fn store_call(sink: &str, hash: &str) -> IrStoreCall {
    IrStoreCall {
        sink: sink.to_string(),
        op: "create".to_string(),
        id: None,
        content_hash: hash.to_string(),
    }
}

fn store_events(at: &EffectLocation) -> Vec<Event> {
    vec![
        Event::StoreCall {
            run_id: "run".to_string(),
            op_id: 4,
            parent_op_id: None,
            sink: "memory".to_string(),
            store_op: "create".to_string(),
            store_id: None,
            item_preview: String::new(),
            content_hash: "sha256:x".to_string(),
            effect: Some(at.clone()),
            timestamp: 0,
        },
        Event::StoreResult {
            run_id: "run".to_string(),
            op_id: 4,
            parent_op_id: None,
            sink: "memory".to_string(),
            sink_id: "note".to_string(),
            duration_ms: 0,
            timestamp: 0,
        },
    ]
}

#[test]
fn recorded_writes_and_finds_are_answered() {
    let at = location(EffectKind::Store, 0);
    let t = IrReplayTrace::from_events(&store_events(&at)).unwrap();
    assert_eq!(t.store_result(&at, &store_call("memory", "sha256:x")).unwrap(), "note");
    let from = location(EffectKind::Retrieve, 0);
    let t = IrReplayTrace::from_events(&vec![
        Event::RetrieveCall {
            run_id: "run".to_string(),
            op_id: 3,
            parent_op_id: None,
            query: "q".to_string(),
            kind: None,
            max_bytes: Some(10),
            effect: Some(from.clone()),
            timestamp: 0,
        },
        Event::RetrieveResult {
            run_id: "run".to_string(),
            op_id: 3,
            parent_op_id: None,
            results: json("[1]"),
            result_preview: String::new(),
            source_count: 1,
            bytes: 1,
            duration_ms: 0,
            timestamp: 0,
        },
    ])
    .unwrap();
    let key = IrRetrieveCall { query: "q".to_string(), kind: None, max_bytes: Some(10) };
    assert_eq!(t.retrieve_result(&from, &key).unwrap().to_text(), "[1]");
    let wider = IrRetrieveCall { query: "q".to_string(), kind: None, max_bytes: None };
    assert!(matches!(
        t.retrieve_result(&from, &wider),
        Err(ReplayError::RetrieveDiverged { .. })
    ));
}

#[test]
fn recorded_writes_are_bound_to_their_content() {
    let at = location(EffectKind::Store, 0);
    let t = IrReplayTrace::from_events(&store_events(&at)).unwrap();
    assert!(matches!(
        t.store_result(&at, &store_call("memory", "sha256:y")),
        Err(ReplayError::StoreDiverged { .. })
    ));
}

#[test]
fn recorded_writes_are_bound_to_their_sink() {
    let at = location(EffectKind::Store, 0);
    let t = IrReplayTrace::from_events(&store_events(&at)).unwrap();
    assert!(matches!(
        t.store_result(&at, &store_call("other", "sha256:x")),
        Err(ReplayError::StoreDiverged { .. })
    ));
}

#[test]
fn recorded_commands_are_bound_to_their_words() {
    let at = location(EffectKind::Eval, 0);
    let argv = Some(vec!["printf".to_string(), "a b".to_string()]);
    let command = render_argv(argv.as_ref().unwrap());
    let t = IrReplayTrace::from_events(&vec![
        Event::EvalCall {
            run_id: "run".to_string(),
            op_id: 2,
            parent_op_id: None,
            command: command.clone(),
            argv: argv.clone(),
            cwd: None,
            env_policy: "inherit".to_string(),
            timeout_ms: 1,
            effect: Some(at.clone()),
            timestamp: 0,
        },
        Event::EvalResult {
            run_id: "run".to_string(),
            op_id: 2,
            parent_op_id: None,
            command: command.clone(),
            result: json(r#"{"ok":true}"#),
            duration_ms: 0,
            truncated_stdout: false,
            truncated_stderr: false,
            timestamp: 0,
        },
    ])
    .unwrap();
    let r = t.eval_result(&at, &command, &argv).unwrap();
    assert!(same_json(&r, &json(r#"{"ok":true}"#)));
    let other = Some(vec!["printf".to_string(), "a".to_string(), "b".to_string()]);
    assert!(matches!(
        t.eval_result(&at, &command, &other),
        Err(ReplayError::EvalDiverged { .. })
    ));
}

#[test]
fn store_plans_need_identities_where_they_revise() {
    assert!(matches!(plan_store(StoreOp::Create, &None), Ok(StorePlan::Create)));
    match plan_store(StoreOp::Update, &Some("id".to_string())) {
        Ok(StorePlan::Update(id)) => assert_eq!(id, "id"),
        other => panic!("{:?}", other),
    }
    assert!(plan_store(StoreOp::Update, &None).is_err());
    assert!(plan_store(StoreOp::Delete, &None).is_err());
    let request =
        store_approval_request("memory", StoreOp::Create, &None, &json("{}"), "sha256:x");
    assert_eq!(request.get_str("sink"), Some("memory"));
}

#[test]
fn overflows_are_collected_a_bounded_number_of_times() {
    assert!(collects_again(true, true, true, 0, 2));
    assert!(!collects_again(true, true, true, 2, 2));
    assert!(!collects_again(true, true, false, 0, 2));
    assert!(!collects_again(false, true, true, 0, 2));
    // A turn is the parent of what is narrowed.
    assert_eq!(infer_lineage(Some(3), true, 9).0, Some(3));
}

#[test]
fn stores_keep_values_by_key() {
    let mut store = InMemoryStore::new();
    assert!(matches!(store.get_local("a"), Json::Null));
    store.put_local("b".to_string(), Json::Int(1));
    store.put_local("a".to_string(), Json::Int(2));
    store.put_local("b".to_string(), Json::Int(3));
    assert_eq!(store.get_local("a").to_text(), "2");
    assert_eq!(store.get_local("b").to_text(), "3");
    assert_eq!(store.clone().get_local("b").to_text(), "3");
}
