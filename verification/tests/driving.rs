use agent_core::approval::{
    after_answer, is_denial_value, pending_id_for, ApprovalDecision, ApprovalKind,
    ApprovalRequest, ApprovalResolution, GateOutcome, GateStep,
};
use agent_core::codec::decode_messages;
use agent_core::driver::{Action, Answer, Closing, Driver, Passage, Scene};
use agent_core::effect::{DynamicPath, EffectLocation};
use agent_core::interpreter::{
    awaiting_approval_message, replay_run, InMemoryStore, IrStepOutcome, IrStore,
};
use agent_core::ir::{
    Block, BlockId, EffectErrorMode, EffectKind, EvalRequest, Expr, Instr, Program, PromptRef,
    SourceKind, StoreOp, Terminator, Var,
};
use agent_core::json::{parse, same_json, Json};
use agent_core::machine::{Effect, Machine, PromptSource};
use agent_core::op::{ChatMessage, FinishReason, Prompt, Response};
use agent_core::provider::ToolSpec;
use agent_core::replay::IrReplayTrace;
use agent_core::tool::{ir_tool_specs, offered, ToolGuidance, ToolRegistry};
use agent_core::trace::{Event, Pricing};
use std::collections::VecDeque;

fn json(text: &str) -> Json {
    parse(text).unwrap()
}

fn var(name: &str) -> Var {
    Var(name.to_string())
}

fn read(name: &str) -> Expr {
    Expr::Var(var(name))
}

fn text(s: &str) -> Expr {
    Expr::Value(Json::Str(s.to_string()))
}

fn num(n: i128) -> Expr {
    Expr::Value(Json::Int(n))
}

fn block(params: &[&str], instructions: Vec<Instr>, terminator: Terminator) -> Block {
    Block { params: params.iter().map(|p| var(p)).collect(), instructions, terminator }
}

fn machine(name: &str, blocks: Vec<(u32, Block)>, env: Vec<(&str, Json)>) -> Machine {
    let program = Program {
        id: name.to_string(),
        entry: BlockId(0),
        blocks: blocks.into_iter().map(|(id, b)| (BlockId(id), b)).collect(),
    };
    Machine::new(program, env.into_iter().map(|(k, v)| (k.to_string(), v)).collect())
}

fn goto(to: u32) -> Terminator {
    Terminator::Goto { block: BlockId(to), args: vec![] }
}

fn give(value: Expr) -> Terminator {
    Terminator::Return { value }
}

fn user(content: &str) -> Prompt {
    vec![ChatMessage::user(content)]
}

fn infer(out: &str, model: &str, prompt: PromptRef) -> Instr {
    Instr::Infer {
        out: var(out),
        model: text(model),
        prompt,
        on_error: EffectErrorMode::Abort,
        tools: None,
    }
}

fn retrieve(out: &str, query: &str) -> Instr {
    Instr::Retrieve {
        out: var(out),
        query: text(query),
        kind: None,
        max_bytes: None,
        on_error: EffectErrorMode::Abort,
    }
}

fn response(content: &str) -> Response {
    Response {
        content: content.to_string(),
        tool_calls: vec![],
        finish_reason: Some(FinishReason::Stop),
        input_tokens: 0,
        output_tokens: 1,
        total_tokens: 1,
        cached_input_tokens: None,
        cost_micro_usd: None,
        pricing: None,
        metadata: vec![],
    }
}

/// The surroundings of a run: a scripted model, a shell that only counts, a
/// source that finds nothing and a sink that keeps what it is given.
struct Host {
    responses: VecDeque<Response>,
    prompts: Vec<Prompt>,
    offers: Vec<Vec<String>>,
    commands: Vec<String>,
    items: Vec<String>,
    guarded: bool,
    hook: Option<ApprovalDecision>,
    resolutions: Vec<(String, ApprovalResolution)>,
    events: Vec<Event>,
    ops: u64,
    run_id: String,
    recording: Option<IrReplayTrace>,
}

impl Host {
    fn new(contents: &[&str]) -> Host {
        Host {
            responses: contents.iter().map(|c| response(c)).collect(),
            prompts: vec![],
            offers: vec![],
            commands: vec![],
            items: vec![],
            guarded: false,
            hook: None,
            resolutions: vec![],
            events: vec![],
            ops: 0,
            run_id: "run".to_string(),
            recording: None,
        }
    }

    fn perform(&mut self, effect: &Effect) -> Result<Answer, String> {
        match effect {
            Effect::Infer { prompt, tools, .. } => {
                let messages = match prompt {
                    PromptSource::Messages(m) => m.clone(),
                    PromptSource::Encoded(v) => decode_messages(v).expect("messages"),
                    PromptSource::Document(_) => panic!("no documents here"),
                };
                self.prompts.push(messages);
                let specs = offered(&tool_specs(), tools);
                self.offers.push(specs.iter().map(|s| s.function.name.clone()).collect());
                let answer = self.responses.pop_front();
                answer.map(Answer::Response).ok_or("mock provider exhausted".to_string())
            }
            Effect::Eval { command, argv, .. } => {
                self.commands.push(command.clone());
                let printed = argv.as_ref().and_then(|a| a.last().cloned()).unwrap_or_default();
                Ok(Answer::Value(Json::Object(vec![
                    ("ok".to_string(), Json::Bool(true)),
                    ("stdout".to_string(), Json::Str(printed)),
                ])))
            }
            Effect::Retrieve { .. } => {
                let found = self.items.iter().cloned().map(Json::Str).collect();
                Ok(Answer::Value(Json::Array(found)))
            }
            Effect::Store { item, .. } => {
                self.items.push(item.to_text());
                Ok(Answer::Id(format!("gated-{}", self.items.len())))
            }
            Effect::Tool { .. } | Effect::Emit { .. } => unreachable!(),
        }
    }

    fn decide(&mut self, driver: &Driver, effect: &Effect) -> Result<GateOutcome, String> {
        if let Some(recording) = &self.recording {
            let (events, outcome) =
                driver.approach_again(effect, recording).map_err(|e| e.message())?;
            self.events.extend(events.into_iter().map(|e| driver.gate_event(e, 0)));
            return Ok(outcome);
        }
        Ok(self.decide_live(driver, effect))
    }

    fn decide_live(&mut self, driver: &Driver, effect: &Effect) -> GateOutcome {
        let id = location(effect).effect_id.clone();
        let known = self.resolutions.iter().find(|(k, _)| *k == id).map(|(_, r)| r.clone());
        match driver.approach(effect, self.guarded, known.as_ref()) {
            GateStep::Open => GateOutcome::Proceed,
            GateStep::Settled { event, outcome } => {
                self.events.push(driver.gate_event(event, 0));
                outcome
            }
            GateStep::Ask { event, pending } => {
                self.events.push(driver.gate_event(event, 0));
                let (event, outcome) = after_answer(pending, self.hook);
                if let Some(event) = event {
                    self.events.push(driver.gate_event(event, 0));
                }
                outcome
            }
        }
    }

    fn steps(&mut self, machine: Machine, limit: Option<usize>) -> Result<IrStepOutcome, String> {
        let mut driver =
            Driver::start(machine, self.run_id.clone(), limit).map_err(|e| e.message())?;
        let store = InMemoryStore::new();
        loop {
            let effect = match driver.next().map_err(|e| e.message())? {
                Action::Moved | Action::Emit(_) => continue,
                Action::Complete(value) => {
                    return Ok(IrStepOutcome::Complete { value, machine: driver.machine })
                }
                Action::Suspend => return driver.suspended(store.in_memory_snapshot()),
                Action::Perform(effect) => effect,
            };
            let outcome = self.decide(&driver, &effect)?;
            match driver.pass(&effect, outcome) {
                Passage::Denied => continue,
                Passage::Paused(p) => return driver.waiting(p, store.in_memory_snapshot()),
                Passage::Proceed => {}
            }
            self.ops += 1;
            let (call, event) = driver.open_call(&effect, self.ops, scene());
            self.events.extend(event);
            let result = match &self.recording {
                Some(recording) => recording.answer(&effect),
                None => self.perform(&effect),
            };
            self.events.extend(driver.outcome_event(&effect, call, &result, closing()));
            driver.close_call(&effect, result).map_err(|e| e.message())?;
        }
    }

    fn run(&mut self, machine: Machine) -> Result<Json, String> {
        match self.steps(machine, None)? {
            IrStepOutcome::Complete { value, .. } => Ok(value),
            IrStepOutcome::AwaitingApproval { pending, .. } => {
                Err(awaiting_approval_message(&pending))
            }
            IrStepOutcome::Suspended { .. } => unreachable!("no limit was set"),
        }
    }

    fn recording(&self) -> IrReplayTrace {
        IrReplayTrace::from_events(&self.events).unwrap()
    }

    fn retrievals(&self) -> Vec<EffectLocation> {
        let at = |e: &Event| match e {
            Event::RetrieveCall { effect, .. } => effect.clone(),
            _ => None,
        };
        self.events.iter().filter_map(at).collect()
    }
}

fn tool_specs() -> Vec<ToolSpec> {
    let guidance = ToolGuidance {
        infer: String::new(),
        infer_context_refs: String::new(),
        remember: String::new(),
        recall: String::new(),
    };
    ir_tool_specs(false, &ToolRegistry::new(), &guidance)
}

fn location(effect: &Effect) -> &EffectLocation {
    match effect {
        Effect::Infer { location, .. }
        | Effect::Eval { location, .. }
        | Effect::Retrieve { location, .. }
        | Effect::Store { location, .. }
        | Effect::Tool { location, .. } => location,
        Effect::Emit { .. } => unreachable!(),
    }
}

fn scene() -> Scene {
    Scene {
        prompt: None,
        prompt_preview: "hi".to_string(),
        cwd: None,
        env_policy: "inherit".to_string(),
        timeout_ms: 1,
        timestamp: 0,
    }
}

fn closing() -> Closing {
    Closing {
        response_preview: "ok".to_string(),
        elapsed_ms: 5,
        timestamp: 0,
    }
}

fn replay(machine: Machine, recording: &IrReplayTrace) -> Result<Json, String> {
    let store = InMemoryStore::new();
    match replay_run(machine, &store, recording, 10_000).map_err(|e| e.message())? {
        IrStepOutcome::Complete { value, .. } => Ok(value),
        other => panic!("{:?}", other),
    }
}

fn field(base: &str, name: &str) -> Expr {
    Expr::Field { base: var(base), field: name.to_string() }
}

fn infer_then_infer_machine() -> Machine {
    let mut second = vec![
        ("role".to_string(), text("user")),
        ("content".to_string(), read("a_content")),
    ];
    second.sort_by(|a, b| a.0.cmp(&b.0));
    let instructions = vec![
        infer("a", "mock", PromptRef::Inline(user("first prompt"))),
        Instr::Let { out: var("a_content"), expr: field("a", "content") },
        Instr::Let { out: var("second_prompt"), expr: Expr::Array(vec![Expr::Object(second)]) },
        infer("b", "mock", PromptRef::Var(var("second_prompt"))),
    ];
    machine("infer-infer", vec![(0, block(&[], instructions, give(field("b", "content"))))], vec![])
}

#[test]
fn ir_runs_infer_then_infer_without_rust_continuations() {
    let mut host = Host::new(&["first", "second"]);
    let value = host.run(infer_then_infer_machine()).unwrap();
    assert_eq!(value.as_str(), Some("second"));
    assert_eq!(host.prompts.len(), 2);
    assert_eq!(host.prompts[1][0].content.as_deref(), Some("first"));
}

#[test]
fn ir_checkpoint_resumes_without_replaying_completed_effects() {
    let mut first = Host::new(&["first"]);
    let checkpoint = match first.steps(infer_then_infer_machine(), Some(1)).unwrap() {
        IrStepOutcome::Suspended { checkpoint } => checkpoint,
        other => panic!("expected suspension after one instruction, got {:?}", other),
    };
    assert_eq!(first.prompts.len(), 1);
    let mut second = Host::new(&["second"]);
    let value = second.run(checkpoint.machine).unwrap();
    assert_eq!(value.as_str(), Some("second"));
    assert_eq!(second.prompts.len(), 1);
}

#[test]
fn infer_policy_toolset_controls_the_provider_offer() {
    let narrowed = |out: &str, tools: Option<Vec<String>>| Instr::Infer {
        out: var(out),
        model: text("mock"),
        prompt: PromptRef::Inline(user(out)),
        on_error: EffectErrorMode::Abort,
        tools,
    };
    let instructions = vec![
        narrowed("full", None),
        narrowed("subset", Some(vec!["infer".to_string()])),
        narrowed("bare", Some(vec![])),
    ];
    let m = machine(
        "toolset-policy",
        vec![(0, block(&[], instructions, give(Expr::Value(Json::Null))))],
        vec![],
    );
    let mut host = Host::new(&["ok", "ok", "ok"]);
    host.run(m).unwrap();
    assert_eq!(host.offers[0], vec!["shell", "infer"]);
    assert_eq!(host.offers[1], vec!["infer"]);
    assert!(host.offers[2].is_empty());
}

#[test]
fn ir_effect_metadata_is_stable_and_visit_sensitive() {
    let m = machine(
        "effect-ids",
        vec![(0, block(&[], vec![retrieve("a", "missing")], give(read("a"))))],
        vec![],
    );
    let mut host = Host::new(&[]);
    host.run(m).unwrap();
    let locations = host.retrievals();
    assert_eq!(locations.len(), 1);
    assert_eq!(locations[0].kind, EffectKind::Retrieve);
    assert_eq!(locations[0].site.block, BlockId(0));
    assert_eq!(locations[0].site.instruction_index, 0);
    let entry = DynamicPath::at_entry(0);
    let path = &locations[0].dynamic_path;
    assert_eq!((path.path.as_str(), path.transitions, path.visit), (
        entry.path.as_str(),
        entry.transitions,
        entry.visit,
    ));
}

#[test]
fn call_events_carry_effect_identity_directly() {
    let instructions = vec![
        infer("a", "mock", PromptRef::Inline(user("hello"))),
        Instr::Eval {
            out: var("b"),
            request: EvalRequest::Shell { command: text("true") },
            require_approval: false,
        },
    ];
    let m = machine(
        "direct-effect",
        vec![(0, block(&[], instructions, give(read("b"))))],
        vec![],
    );
    let mut host = Host::new(&["hi"]);
    host.run(m).unwrap();
    assert!(!host.events.iter().any(|e| matches!(e, Event::Custom { .. })));
    let inferred = host
        .events
        .iter()
        .find_map(|e| match e {
            Event::InferCall { effect, .. } => effect.clone(),
            _ => None,
        })
        .expect("an inference carries its location");
    assert_eq!(inferred.kind, EffectKind::Infer);
    assert_eq!(inferred.site.block, BlockId(0));
    assert_eq!(inferred.site.instruction_index, 0);
    assert!(inferred.effect_id.starts_with("sha256:"));
    let evaluated = host
        .events
        .iter()
        .find_map(|e| match e {
            Event::EvalCall { effect, .. } => effect.clone(),
            _ => None,
        })
        .expect("an evaluation carries its location");
    assert_eq!(evaluated.kind, EffectKind::Eval);
    assert_eq!(evaluated.site.instruction_index, 1);
    assert_ne!(inferred.effect_id, evaluated.effect_id);
}

fn argv_eval_machine(payload: &str) -> Machine {
    let instructions = vec![Instr::Eval {
        out: var("result"),
        request: EvalRequest::Argv {
            argv: vec![text("/bin/sh"), text("-c"), text(r#"printf %s "$0""#), read("payload")],
        },
        require_approval: false,
    }];
    machine(
        "argv-eval",
        vec![(0, block(&["payload"], instructions, give(read("result"))))],
        vec![("payload", Json::Str(payload.to_string()))],
    )
}

#[test]
fn ir_argv_eval_executes_directly_and_records_argv() {
    let mut host = Host::new(&[]);
    let value = host.run(argv_eval_machine("one arg $HOME")).unwrap();
    assert_eq!(value.get("ok").unwrap().as_bool(), Some(true));
    assert_eq!(value.get_str("stdout"), Some("one arg $HOME"));
    let (command, argv, effect) = host
        .events
        .iter()
        .find_map(|e| match e {
            Event::EvalCall { command, argv, effect, .. } => {
                Some((command.clone(), argv.clone(), effect.clone()))
            }
            _ => None,
        })
        .expect("a call of the command");
    assert_eq!(
        argv.unwrap(),
        vec!["/bin/sh", "-c", r#"printf %s "$0""#, "one arg $HOME"]
    );
    assert_eq!(command, r#"/bin/sh -c 'printf %s "$0"' 'one arg $HOME'"#);
    assert_eq!(effect.unwrap().kind, EffectKind::Eval);
}

#[test]
fn ir_argv_eval_replays_recorded_result_and_detects_argv_divergence() {
    let mut host = Host::new(&[]);
    host.run(argv_eval_machine("recorded-payload")).unwrap();
    // What is replayed comes out of the recording.
    for event in host.events.iter_mut() {
        if let Event::EvalResult { result, .. } = event {
            *result = json(r#"{"ok":true,"stdout":"from-recording"}"#);
        }
    }
    let replayed = replay(argv_eval_machine("recorded-payload"), &host.recording()).unwrap();
    assert_eq!(replayed.get_str("stdout"), Some("from-recording"));

    let message = replay(argv_eval_machine("changed-payload"), &host.recording()).unwrap_err();
    assert!(message.contains("AgentIR replay diverged"), "{message}");
    assert!(message.contains("argv"), "{message}");
    assert!(message.contains("changed-payload"), "{message}");
}

#[test]
fn loop_iterations_get_distinct_path_sensitive_effect_ids() {
    let again = Terminator::If {
        cond: Expr::Eq { left: Box::new(read("i")), right: Box::new(num(1)) },
        then_block: BlockId(1),
        then_args: vec![],
        else_block: BlockId(0),
        else_args: vec![Expr::Add { left: Box::new(read("i")), right: Box::new(num(1)) }],
    };
    let m = machine(
        "loop-ids",
        vec![
            (0, block(&["i"], vec![retrieve("hits", "q")], again)),
            (1, block(&[], vec![], give(text("done")))),
        ],
        vec![("i", Json::Int(0))],
    );
    let mut host = Host::new(&[]);
    host.run(m).unwrap();
    let effects = host.retrievals();
    assert_eq!(effects.len(), 2);
    assert_eq!(effects[0].site, effects[1].site);
    assert_ne!(effects[0].effect_id, effects[1].effect_id);
    assert_eq!(effects[0].dynamic_path.visit, 0);
    assert_eq!(effects[1].dynamic_path.visit, 1);
    assert_eq!(effects[0].dynamic_path.path, "");
    assert_eq!(effects[0].dynamic_path.transitions, 0);
    assert_ne!(effects[1].dynamic_path.path, "");
    assert_eq!(effects[1].dynamic_path.transitions, 1);
}

fn diamond_machine(flag: bool) -> Machine {
    let fork = Terminator::If {
        cond: read("flag"),
        then_block: BlockId(1),
        then_args: vec![],
        else_block: BlockId(2),
        else_args: vec![],
    };
    machine(
        "diamond-ids",
        vec![
            (0, block(&["flag"], vec![], fork)),
            (1, block(&[], vec![], goto(3))),
            (2, block(&[], vec![], goto(3))),
            (3, block(&[], vec![retrieve("hits", "q")], give(read("hits")))),
        ],
        vec![("flag", Json::Bool(flag))],
    )
}

#[test]
fn branch_arms_reaching_the_same_site_get_distinct_effect_ids() {
    let effects = |flag: bool| {
        let mut host = Host::new(&[]);
        host.run(diamond_machine(flag)).unwrap();
        host.retrievals()
    };
    let (one, two) = (effects(true), effects(false));
    assert_eq!((one.len(), two.len()), (1, 1));
    assert_eq!(one[0].site, two[0].site);
    assert_eq!(one[0].dynamic_path.visit, 0);
    assert_eq!(two[0].dynamic_path.visit, 0);
    assert_eq!(one[0].dynamic_path.transitions, 2);
    assert_ne!(one[0].dynamic_path.path, two[0].dynamic_path.path);
    assert_ne!(one[0].effect_id, two[0].effect_id);
}

#[test]
fn replaying_a_then_path_recording_against_an_else_path_run_diverges() {
    let mut host = Host::new(&[]);
    let value = host.run(diamond_machine(true)).unwrap();
    let recording = host.recording();
    assert!(same_json(&replay(diamond_machine(true), &recording).unwrap(), &value));
    let message = replay(diamond_machine(false), &recording).unwrap_err();
    assert!(message.contains("AgentIR replay missing RetrieveCall"), "{message}");
    assert!(message.contains("control path"), "{message}");
}

fn single_infer_machine(model: &str) -> Machine {
    let mut hello = ChatMessage::user("hello");
    hello.id = 0;
    let instructions = vec![infer("response", model, PromptRef::Inline(vec![hello]))];
    machine("single-infer", vec![(0, block(&[], instructions, give(read("response"))))], vec![])
}

#[test]
fn ir_replay_uses_stable_effect_ids() {
    let mut host = Host::new(&["recorded"]);
    let recorded = host.run(single_infer_machine("mock")).unwrap();
    assert_eq!(recorded.get_str("content"), Some("recorded"));
    let replayed = replay(single_infer_machine("mock"), &host.recording()).unwrap();
    assert!(same_json(&replayed, &recorded));
    assert_eq!(host.prompts.len(), 1);
}

#[test]
fn a_replay_reproduces_recorded_costs() {
    let prices = Pricing { input_micro_usd_per_mtok: 3, output_micro_usd_per_mtok: 15 };
    let mut host = Host::new(&["recorded"]);
    host.responses[0].cached_input_tokens = Some(2);
    host.responses[0].cost_micro_usd = Some(66);
    host.responses[0].pricing = Some(prices);
    host.run(single_infer_machine("mock")).unwrap();
    let mut again = Host::new(&[]);
    again.recording = Some(host.recording());
    let value = again.run(single_infer_machine("mock")).unwrap();
    assert!(same_json(value.get("cost_micro_usd").unwrap(), &Json::Int(66)));
    let costs = |events: &[Event]| -> Vec<(Option<u32>, Option<u64>, Option<Pricing>)> {
        events
            .iter()
            .filter_map(|e| match e {
                Event::InferResult { cached_input_tokens, cost_micro_usd, pricing, .. } => {
                    Some((*cached_input_tokens, *cost_micro_usd, *pricing))
                }
                _ => None,
            })
            .collect()
    };
    assert_eq!(costs(&host.events), vec![(Some(2), Some(66), Some(prices))]);
    assert_eq!(costs(&again.events), costs(&host.events));
}

#[test]
fn ir_replay_divergence_reports_effect_location() {
    let mut host = Host::new(&["recorded"]);
    host.run(single_infer_machine("mock")).unwrap();
    let err = replay(single_infer_machine("other-model"), &host.recording()).unwrap_err();
    assert!(err.contains("AgentIR replay missing InferCall"));
    assert!(err.contains("block BlockId(0) instruction 0"));
}

#[test]
fn ir_step_limit_suspends_goto_only_loops() {
    let m = machine(
        "goto-loop",
        vec![(0, block(&[], vec![], goto(1))), (1, block(&[], vec![], goto(0)))],
        vec![],
    );
    let outcome = Host::new(&[]).steps(m, Some(10)).unwrap();
    assert!(matches!(outcome, IrStepOutcome::Suspended { .. }));
    if let IrStepOutcome::Suspended { checkpoint } = outcome {
        assert_eq!((checkpoint.machine.block, checkpoint.machine.pc), (BlockId(0), 0));
    }
}

#[test]
fn stopped_runs_end_as_whole_runs_do() {
    let mut whole = Host::new(&["first", "second"]);
    let value = whole.run(infer_then_infer_machine()).unwrap();
    for limit in 0..5 {
        let mut host = Host::new(&["first", "second"]);
        let checkpoint = match host.steps(infer_then_infer_machine(), Some(limit)).unwrap() {
            IrStepOutcome::Suspended { checkpoint } => checkpoint,
            other => panic!("{:?}", other),
        };
        let again = host.run(checkpoint.machine).unwrap();
        assert_eq!(again.to_text(), value.to_text());
        assert_eq!(host.prompts.len(), 2, "nothing is asked again after {limit} steps");
    }
}

#[test]
fn ir_validation_runs_before_effects() {
    let instructions = vec![infer("response", "mock", PromptRef::Inline(user("do not run")))];
    let m = machine("invalid", vec![(0, block(&[], instructions, give(read("missing"))))], vec![]);
    let mut host = Host::new(&["should-not-run"]);
    let err = host.run(m).unwrap_err();
    assert!(err.contains("used before definition"), "{err}");
    assert_eq!(host.prompts.len(), 0);
}

fn gated_eval_machine(name: &str, command: &str) -> Machine {
    let instructions = vec![
        Instr::Eval {
            out: var("eval_out"),
            request: EvalRequest::Shell { command: read("cmd") },
            require_approval: true,
        },
        Instr::Let { out: var("after"), expr: Expr::Value(Json::Bool(true)) },
    ];
    let both = Expr::Object(vec![
        ("after".to_string(), read("after")),
        ("eval".to_string(), read("eval_out")),
    ]);
    machine(
        name,
        vec![(0, block(&["cmd"], instructions, give(both)))],
        vec![("cmd", Json::Str(command.to_string()))],
    )
}

fn waiting(outcome: IrStepOutcome) -> (Machine, ApprovalRequest) {
    match outcome {
        IrStepOutcome::AwaitingApproval { checkpoint, pending } => (checkpoint.machine, pending),
        other => panic!("expected a wait for a decision, got {:?}", other),
    }
}

fn resolution(decision: ApprovalDecision, reason: Option<&str>) -> ApprovalResolution {
    ApprovalResolution {
        decision,
        resolved_by: Some("ben".to_string()),
        reason: reason.map(|r| r.to_string()),
    }
}

#[test]
fn gated_eval_pauses_persists_and_approve_after_restart_executes_once() {
    let mut first = Host::new(&[]);
    first.run_id = "run-approve".to_string();
    let m = gated_eval_machine("gated-approve", "printf ran");
    let (stopped, pending) = waiting(first.steps(m, None).unwrap());
    assert!(first.commands.is_empty(), "gated effect must not have executed");
    assert_eq!(pending.kind, ApprovalKind::Eval);
    assert_eq!(pending.pending_id, pending_id_for("run-approve", &pending.effect.effect_id));
    assert_eq!(pending.request.get_str("command"), Some("printf ran"));

    let mut second = Host::new(&[]);
    second.run_id = "run-approve".to_string();
    let approved = resolution(ApprovalDecision::Approve, None);
    second.resolutions.push((pending.effect.effect_id.clone(), approved));
    let value = second.run(stopped).unwrap();
    assert_eq!(value.get("after").unwrap().as_bool(), Some(true), "program continued");
    assert_eq!(value.get("eval").unwrap().get("ok").unwrap().as_bool(), Some(true));
    assert_eq!(second.commands, vec!["printf ran"], "the approved effect executed exactly once");
    assert!(first.events.iter().any(|e| matches!(
        e,
        Event::ApprovalRequested { pending_id, .. } if *pending_id == pending.pending_id
    )));
    assert!(second.events.iter().any(|e| matches!(
        e,
        Event::ApprovalResolved { decision, resolved_by, .. }
            if decision == "approved" && resolved_by.as_deref() == Some("ben")
    )));
}

#[test]
fn denied_gated_eval_binds_typed_value_and_program_continues() {
    let mut host = Host::new(&[]);
    host.run_id = "run-deny".to_string();
    let m = gated_eval_machine("gated-deny", "printf ran");
    let (stopped, pending) = waiting(host.steps(m, None).unwrap());
    let denied = resolution(ApprovalDecision::Deny, Some("not on prod"));
    host.resolutions.push((pending.effect.effect_id, denied));
    let value = host.run(stopped).unwrap();
    assert_eq!(value.get("after").unwrap().as_bool(), Some(true), "program continued");
    let evaluated = value.get("eval").unwrap();
    assert!(is_denial_value(evaluated));
    assert_eq!(evaluated.get("ok").unwrap().as_bool(), Some(false));
    assert_eq!(evaluated.get("approval").unwrap().get_str("status"), Some("denied"));
    assert_eq!(evaluated.get("approval").unwrap().get_str("reason"), Some("not on prod"));
    assert!(host.commands.is_empty(), "denied effect must never execute");
}

#[test]
fn unattended_gated_eval_fails_closed() {
    let mut host = Host::new(&[]);
    let err = host.run(gated_eval_machine("gated-closed", "printf ran")).unwrap_err();
    assert!(err.contains("requires approval"), "{err}");
    assert!(err.contains("failing closed"), "{err}");
    assert!(host.commands.is_empty());
}

#[test]
fn approval_hook_decides_at_the_effect_site() {
    let mut host = Host::new(&[]);
    host.hook = Some(ApprovalDecision::Approve);
    let value = host.run(gated_eval_machine("gated-hook", "printf ran")).unwrap();
    assert_eq!(value.get("eval").unwrap().get("ok").unwrap().as_bool(), Some(true));
    assert_eq!(host.commands, vec!["printf ran"]);
    assert!(host.events.iter().any(|e| matches!(e, Event::ApprovalRequested { .. })));
    assert!(host.events.iter().any(|e| matches!(
        e,
        Event::ApprovalResolved { decision, resolved_by, .. }
            if decision == "approved" && resolved_by.as_deref() == Some("hook")
    )));
}

#[test]
fn replay_reproduces_approved_and_denied_outcomes_as_data() {
    for decision in [ApprovalDecision::Approve, ApprovalDecision::Deny] {
        let mut host = Host::new(&[]);
        host.hook = Some(decision);
        let m = || gated_eval_machine("gated-replay", "printf ran");
        let recorded = host.run(m()).unwrap();
        assert_eq!(host.commands.len(), usize::from(decision == ApprovalDecision::Approve));

        // Nobody is there to decide: the recording alone does.
        let mut again = Host::new(&[]);
        again.recording = Some(host.recording());
        let value = again.run(m()).unwrap();
        assert!(same_json(&value, &recorded), "replay reproduces the outcome");
        assert!(again.commands.is_empty(), "replay never re-executes the effect");
        assert!(again.events.iter().any(|e| matches!(e, Event::ApprovalRequested { .. })));
        let expected = decision.as_status_str();
        assert!(again.events.iter().any(|e| matches!(
            e,
            Event::ApprovalResolved { decision, .. } if decision == expected
        )));
        assert!(same_json(&replay(m(), &host.recording()).unwrap(), &recorded));
    }
}

#[test]
fn replay_diverges_on_mismatched_gated_request() {
    let mut host = Host::new(&[]);
    host.hook = Some(ApprovalDecision::Deny);
    host.run(gated_eval_machine("gated-diverge", "printf ran")).unwrap();
    let other = || gated_eval_machine("gated-diverge", "printf other");
    let err = replay(other(), &host.recording()).unwrap_err();
    assert!(err.contains("diverged"), "{err}");
    assert!(err.contains("does not match observed request"), "{err}");
    let mut again = Host::new(&[]);
    again.recording = Some(host.recording());
    assert_eq!(again.run(other()).unwrap_err(), err);
}

fn gated_store_machine(name: &str) -> Machine {
    let instructions = vec![Instr::Store {
        out: var("stored"),
        sink: text("gated"),
        op: StoreOp::Create,
        id: None,
        item: Expr::Value(json(r#"{"note":"hello"}"#)),
        on_error: EffectErrorMode::Abort,
    }];
    machine(name, vec![(0, block(&[], instructions, give(read("stored"))))], vec![])
}

#[test]
fn require_approval_sink_gates_store_effects() {
    let mut host = Host::new(&[]);
    host.guarded = true;
    let (_, pending) = waiting(host.steps(gated_store_machine("gated-store"), None).unwrap());
    assert_eq!(pending.kind, ApprovalKind::Store);
    assert_eq!(pending.request.get_str("sink"), Some("gated"));
    assert_eq!(pending.request.get_str("op"), Some("create"));
    assert!(host.items.is_empty(), "no write before approval");

    host.hook = Some(ApprovalDecision::Approve);
    let value = host.run(gated_store_machine("gated-store-ok")).unwrap();
    assert_eq!(value.as_str(), Some("gated-1"));
    assert_eq!(host.items.len(), 1);

    host.hook = Some(ApprovalDecision::Deny);
    let value = host.run(gated_store_machine("gated-store-no")).unwrap();
    assert!(is_denial_value(&value));
    assert_eq!(host.items.len(), 1);
}

fn store_then_retrieve_machine(params: &[&str], item: Expr, env: Vec<(&str, Json)>) -> Machine {
    let instructions = vec![
        Instr::Store {
            out: var("stored"),
            sink: text("memory"),
            op: StoreOp::Create,
            id: None,
            item,
            on_error: EffectErrorMode::Abort,
        },
        Instr::Retrieve {
            out: var("hits"),
            query: text("remembered fact"),
            kind: Some(SourceKind::Semantic),
            max_bytes: None,
            on_error: EffectErrorMode::Abort,
        },
    ];
    let body = block(params, instructions, give(read("hits")));
    machine("store-retrieve", vec![(0, body)], env)
}

fn remembering_machine() -> Machine {
    let item = json(
        r#"{"name":"round-trip","description":"stored by the Store effect","body":"the remembered fact"}"#,
    );
    store_then_retrieve_machine(&[], Expr::Value(item), vec![])
}

#[test]
fn store_and_retrieve_effects_round_trip_against_the_memory_backend() {
    let mut host = Host::new(&[]);
    let value = host.run(remembering_machine()).unwrap();
    assert_eq!(value.as_array().unwrap().len(), 1);
    assert!(value.at(0).unwrap().as_str().unwrap().contains("the remembered fact"));
    assert!(host.events.iter().any(|e| matches!(e, Event::StoreCall { .. })));
    assert!(host.events.iter().any(|e| matches!(
        e,
        Event::RetrieveResult { source_count: 1, duration_ms: 5, .. }
    )));
}

#[test]
fn replayed_store_and_retrieve_never_touch_the_backend() {
    let mut host = Host::new(&[]);
    let live = host.run(remembering_machine()).unwrap();
    let mut again = Host::new(&[]);
    again.recording = Some(host.recording());
    let replayed = again.run(remembering_machine()).unwrap();
    assert!(same_json(&replayed, &live));
    assert!(again.items.is_empty(), "replay must never write to the sink");
    assert!(same_json(&replay(remembering_machine(), &host.recording()).unwrap(), &live));
}

#[test]
fn replayed_store_detects_payload_divergence() {
    let m = |body: &str| {
        let note = format!(r#"{{"name":"dynamic","description":"from env","body":"{body}"}}"#);
        store_then_retrieve_machine(&["note"], read("note"), vec![("note", json(&note))])
    };
    let mut host = Host::new(&[]);
    host.run(m("recorded payload")).unwrap();
    let err = replay(m("a DIFFERENT payload"), &host.recording()).unwrap_err();
    assert!(err.contains("hash"), "{err}");
}

#[test]
fn replayed_store_detects_sink_divergence_with_identical_payload() {
    let item = json(
        r#"{"name":"fixed","description":"identical payload","body":"same bytes either run"}"#,
    );
    let m = |sink: &str| {
        let instructions = vec![Instr::Store {
            out: var("id"),
            sink: read("sink"),
            op: StoreOp::Create,
            id: None,
            item: Expr::Value(item.clone()),
            on_error: EffectErrorMode::Abort,
        }];
        machine(
            "dynamic-sink",
            vec![(0, block(&["sink"], instructions, give(read("id"))))],
            vec![("sink", Json::Str(sink.to_string()))],
        )
    };
    let mut host = Host::new(&[]);
    host.run(m("memory")).unwrap();
    let message = replay(m("elsewhere"), &host.recording()).unwrap_err();
    assert!(message.contains("memory") && message.contains("elsewhere"), "{message}");
}

#[test]
fn failures_are_recorded_and_end_the_run() {
    let mut host = Host::new(&[]);
    let err = host.run(single_infer_machine("mock")).unwrap_err();
    assert_eq!(err, "mock provider exhausted");
    assert!(matches!(
        host.events.last(),
        Some(Event::InferError { error, .. }) if error == "mock provider exhausted"
    ));
    // The failure is replayed, under the name of its effect.
    let again = replay(single_infer_machine("mock"), &host.recording()).unwrap_err();
    assert!(again.contains("mock provider exhausted"), "{again}");
    assert!(again.contains("replaying recorded"), "{again}");
}

#[test]
fn runs_without_a_snapshot_cannot_stop() {
    let m = || machine("goto-loop", vec![(0, block(&[], vec![], goto(0)))], vec![]);
    let stopped = Driver::start(m(), "run".to_string(), Some(0)).unwrap().suspended(None);
    assert_eq!(
        stopped.unwrap_err(),
        "AgentIR instruction-limit checkpoints require an in-memory store snapshot"
    );
    let mut host = Host::new(&[]);
    let gated = gated_eval_machine("gated", "printf ran");
    let (_, pending) = waiting(host.steps(gated, None).unwrap());
    let waited = Driver::start(m(), "run".to_string(), None).unwrap().waiting(pending, None);
    assert_eq!(
        waited.unwrap_err(),
        "AgentIR approval pauses require an in-memory store snapshot"
    );
}
