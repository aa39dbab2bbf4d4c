use agent_core::approval::{after_answer, GateStep};
use agent_core::codec::decode_messages;
use agent_core::driver::{Action, Answer, Closing, Driver, Passage, Scene};
use agent_core::interpreter::{replay_run, InMemoryStore, IrStepOutcome};
use agent_core::ir_agent::{
    agent_loop_ir, agent_loop_ir_with_options, agent_loop_ir_with_policies,
    agent_loop_ir_with_tools, check_output_schema_hash, contract_event, turn_budget_exhausted,
    AgentLoopOptions, LoopRun, LoopStep,
};
use agent_core::ir_flow::validate_program;
use agent_core::ir_hash::{encode_program, program_hash};
use agent_core::json::{get_field, parse, Json};
use agent_core::machine::{Effect, Machine, PromptSource};
use agent_core::memory::{retrieve_by_words, Memory, MemoryPayload};
use agent_core::op::{ChatMessage, FinishReason, Model, Response, ToolCall, CONTINUE_NUDGE};
use agent_core::output_contract::{
    output_contract_failure, OutputContract, OUTPUT_CONTRACT_EVENT,
};
use agent_core::replay::IrReplayTrace;
use agent_core::trace::Event;
use std::collections::VecDeque;

fn json(text: &str) -> Json {
    parse(text).unwrap()
}

fn model() -> Model {
    Model("mock".to_string())
}

fn call(id: &str, name: &str, arguments: &str) -> ToolCall {
    ToolCall::new(id, name, json(arguments))
}

fn response(content: &str, tool_calls: Vec<ToolCall>) -> Response {
    response_with_finish(content, tool_calls, Some(FinishReason::Stop))
}

fn response_with_finish(
    content: &str,
    tool_calls: Vec<ToolCall>,
    finish_reason: Option<FinishReason>,
) -> Response {
    Response {
        content: content.to_string(),
        tool_calls,
        finish_reason,
        input_tokens: 0,
        output_tokens: 1,
        total_tokens: 1,
        cached_input_tokens: None,
        cost_micro_usd: None,
        pricing: None,
        metadata: Vec::new(),
    }
}

fn scene() -> Scene {
    Scene {
        prompt: None,
        prompt_preview: String::new(),
        cwd: None,
        env_policy: "inherit".to_string(),
        timeout_ms: 1,
        timestamp: 0,
    }
}

fn closing() -> Closing {
    Closing {
        response_preview: String::new(),
        elapsed_ms: 0,
        timestamp: 0,
    }
}

/// The world that a run meets: a scripted model, a shell that prints, a memory
/// and a weather service.
struct World {
    responses: VecDeque<Response>,
    dead_model: Option<String>,
    prompts: Vec<Vec<ChatMessage>>,
    memories: Vec<Memory>,
    weather: Result<String, String>,
    registered: bool,
    events: Vec<Event>,
    evals: usize,
    tool_calls: usize,
    next_op: u64,
}

impl World {
    fn new(responses: Vec<Response>) -> World {
        World {
            responses: responses.into_iter().collect(),
            dead_model: None,
            prompts: Vec::new(),
            memories: Vec::new(),
            weather: Ok("sunny in sf".to_string()),
            registered: true,
            events: Vec::new(),
            evals: 0,
            tool_calls: 0,
            next_op: 0,
        }
    }

    fn infer(&mut self, model: &str, prompt: &PromptSource) -> Result<Response, String> {
        if self.dead_model.as_deref() == Some(model) {
            return Err(format!("provider returned 404 Not Found: model: {model}"));
        }
        let messages = match prompt {
            PromptSource::Messages(m) => m.clone(),
            PromptSource::Encoded(v) => decode_messages(v).expect("messages"),
            PromptSource::Document(_) => panic!("no documents in the loop"),
        };
        self.prompts.push(messages);
        self.responses.pop_front().ok_or("mock provider exhausted".to_string())
    }

    fn store(&mut self, item: &Json) -> Result<String, String> {
        let payload = MemoryPayload::parse(item).map_err(|e| e.message())?;
        let slug = payload.slug().map_err(|e| e.message())?;
        if self.memories.iter().any(|m| m.name == slug) {
            return Err(format!("memory {slug:?} already exists; use Update to revise it"));
        }
        self.memories.push(Memory {
            name: slug.clone(),
            description: payload.description,
            memory_type: payload.memory_type,
            body: payload.body,
        });
        Ok(slug)
    }

    fn perform(&mut self, effect: &Effect) -> Result<Answer, String> {
        match effect {
            Effect::Infer { model, prompt, .. } => self.infer(model, prompt).map(Answer::Response),
            Effect::Eval { command, .. } => {
                self.evals += 1;
                let printed = command.trim_start_matches("printf ").to_string();
                Ok(Answer::Value(Json::Object(vec![
                    ("ok".to_string(), Json::Bool(true)),
                    ("stdout".to_string(), Json::Str(printed)),
                ])))
            }
            Effect::Retrieve { query, .. } => {
                let found = retrieve_by_words(&self.memories, Some(query), 16384);
                Ok(Answer::Value(Json::Array(vec![Json::Str(found.content)])))
            }
            Effect::Store { item, .. } => self.store(item).map(Answer::Id),
            Effect::Tool { name, .. } => {
                if !self.registered {
                    return Err(format!("no native tool {name:?} is registered"));
                }
                self.tool_calls += 1;
                self.weather.clone().map(|s| Answer::Value(Json::Str(s)))
            }
            Effect::Emit { .. } => unreachable!("emitted events are not carried out"),
        }
    }

    /// Takes one step; gives the value of a run that has ended.
    fn step(&mut self, driver: &mut Driver) -> Result<Option<Json>, String> {
        match driver.next().map_err(|e| e.message())? {
            Action::Moved | Action::Emit(_) => Ok(None),
            Action::Complete(v) => Ok(Some(v)),
            Action::Suspend => Err("suspended".to_string()),
            Action::Perform(effect) => {
                assert!(matches!(driver.approach(&effect, false, None), GateStep::Open));
                self.next_op += 1;
                let (call, event) = driver.open_call(&effect, self.next_op, scene());
                self.events.push(event.expect("a call"));
                let result = self.perform(&effect);
                let outcome = driver.outcome_event(&effect, call, &result, closing());
                self.events.push(outcome.expect("an outcome"));
                driver.close_call(&effect, result).map_err(|e| e.message())?;
                Ok(None)
            }
        }
    }

    fn finish(&mut self, machine: Machine) -> Result<(Json, Machine), String> {
        let mut driver =
            Driver::start(machine, "run".to_string(), None).map_err(|e| e.message())?;
        loop {
            if let Some(v) = self.step(&mut driver)? {
                return Ok((v, driver.machine));
            }
        }
    }

    fn run(&mut self, machine: Machine) -> Result<Json, String> {
        self.finish(machine).map(|(value, _)| value)
    }

    /// What a tool answered in the given prompt.
    fn answer(&self, prompt: usize, id: &str) -> String {
        self.prompts[prompt]
            .iter()
            .find(|m| m.tool_call_id.as_deref() == Some(id))
            .expect("tool result fed back")
            .content
            .clone()
            .unwrap()
    }
}

fn opening() -> Vec<ChatMessage> {
    vec![ChatMessage::system("system"), ChatMessage::user("go")]
}

fn asked(prompt: &str) -> Vec<ChatMessage> {
    vec![ChatMessage::system("system"), ChatMessage::user(prompt)]
}

fn run(world: &mut World, prompt: &str, turns: usize) -> Json {
    let machine = agent_loop_ir(model(), &asked(prompt), turns);
    world.run(machine).unwrap()
}

fn run_with_memory(world: &mut World, prompt: &str, turns: usize) -> Json {
    let machine =
        agent_loop_ir_with_options(model(), &vec![ChatMessage::user(prompt)], turns, true);
    world.run(machine).unwrap()
}

fn run_with_tool(world: &mut World, prompt: &str, tool: &str) -> Json {
    let opening = vec![ChatMessage::user(prompt)];
    let machine = agent_loop_ir_with_tools(model(), &opening, 4, false, vec![tool.to_string()]);
    world.run(machine).unwrap()
}

#[test]
fn agent_loop_ir_validates() {
    let machine = agent_loop_ir(
        model(),
        &vec![ChatMessage::system("system"), ChatMessage::user("hello")],
        4,
    );
    validate_program(&machine.program).unwrap();
}

#[test]
fn agent_loop_ir_executes_infer_tool_directly() {
    let mut world = World::new(vec![
        response("", vec![call("call-1", "infer", r#"{"model":"mock","prompt":"sub question"}"#)]),
        response("sub answer", vec![]),
        response("done", vec![]),
    ]);
    assert_eq!(run(&mut world, "use infer", 4).get_str("content"), Some("done"));
    assert_eq!(world.answer(2, "call-1"), "sub answer");
    assert_eq!(world.prompts[1].len(), 1);
    assert_eq!(world.prompts[1][0].content.as_deref(), Some("sub question"));
}

#[test]
fn inferences_read_earlier_results_by_reference() {
    let arguments = r#"{"model":"mock","prompt":"sum it up","context_refs":["call-0"]}"#;
    let mut world = World::new(vec![
        response("", vec![call("call-0", "shell", r#"{"command":"printf bulky"}"#)]),
        response("", vec![call("call-1", "infer", arguments)]),
        response("short", vec![]),
        response("done", vec![]),
    ]);
    assert_eq!(run(&mut world, "use infer", 4).get_str("content"), Some("done"));
    assert_eq!(world.answer(3, "call-1"), "short");
    let child = &world.prompts[2];
    assert_eq!(child.len(), 2);
    assert_eq!(
        child[0].content.as_deref(),
        Some(
            "Referenced result of tool call call-0 (shell):\n{\"ok\":true,\"stdout\":\"bulky\"}"
        )
    );
    assert_eq!(child[1].content.as_deref(), Some("sum it up"));
}

#[test]
fn references_that_lead_nowhere_are_answered() {
    let arguments = r#"{"model":"mock","prompt":"p","context_refs":["call-9",7]}"#;
    let mut world = World::new(vec![
        response("", vec![call("call-1", "infer", arguments)]),
        response("done", vec![]),
    ]);
    assert_eq!(run(&mut world, "use infer", 4).get_str("content"), Some("done"));
    assert_eq!(world.prompts.len(), 2, "no child was asked");
    assert_eq!(
        world.answer(1, "call-1"),
        r#"{"error":"unresolved_context_refs","message":"context_refs must name results of earlier tool calls","missing":["call-9","7"],"ok":false}"#
    );
}

#[test]
fn inferences_without_a_prompt_are_answered() {
    let arguments = r#"{"model":"mock","context_refs":["call-9"]}"#;
    let mut world = World::new(vec![
        response("", vec![call("call-1", "infer", arguments)]),
        response("done", vec![]),
    ]);
    assert_eq!(run(&mut world, "use infer", 4).get_str("content"), Some("done"));
    assert_eq!(
        world.answer(1, "call-1"),
        r#"{"error":"invalid_arguments","message":"tool requires non-empty string arguments","ok":false}"#
    );
}

fn spinning() -> Response {
    response("", vec![call("call-budget", "shell", r#"{"command":"printf spin"}"#)])
}

#[test]
fn agent_loop_ir_turn_budget_exhaustion_annotates_response() {
    let mut world = World::new(vec![spinning(), spinning(), spinning()]);
    let value = run(&mut world, "spin", 2);
    assert_eq!(world.prompts.len(), 3, "one turn more than the budget");
    let metadata = value.get("metadata").unwrap();
    assert_eq!(metadata.get_str("stop_reason"), Some("turn_budget_exhausted"));
    assert!(!value.get("tool_calls").unwrap().as_array().unwrap().is_empty());
    assert!(turn_budget_exhausted(&value));
}

#[test]
fn agent_loop_ir_natural_stop_has_no_budget_metadata() {
    let mut world = World::new(vec![response("done", vec![])]);
    let value = run(&mut world, "hi", 2);
    assert_eq!(value.get_str("content"), Some("done"));
    assert!(value.get("metadata").is_none());
    assert!(!turn_budget_exhausted(&value));
}

#[test]
fn agent_loop_ir_ends_turn_on_tool_call_free_response_without_finish_reason() {
    let mut world = World::new(vec![response_with_finish("final answer", vec![], None)]);
    let value = run(&mut world, "hi", 4);
    assert_eq!(value.get_str("content"), Some("final answer"));
    assert!(value.get("metadata").is_none());
}

#[test]
fn agent_loop_ir_ends_turn_on_unrecognized_finish_reason() {
    let mut world = World::new(vec![response_with_finish(
        "filtered but final",
        vec![],
        Some(FinishReason::ContentFilter),
    )]);
    assert_eq!(run(&mut world, "hi", 4).get_str("content"), Some("filtered but final"));
}

#[test]
fn agent_loop_ir_never_treats_stop_with_tool_calls_as_terminal() {
    let mut world = World::new(vec![
        response("", vec![call("call-1", "shell", r#"{"command":"printf t1134"}"#)]),
        response("done after tool", vec![]),
    ]);
    let value = run(&mut world, "run it", 4);
    assert_eq!(value.get_str("content"), Some("done after tool"));
    assert!(value.get("metadata").is_none());
}

#[test]
fn agent_loop_ir_nudges_non_stop_turn_without_tool_calls() {
    let mut world = World::new(vec![
        response_with_finish("partial answer", vec![], Some(FinishReason::Length)),
        response("done", vec![]),
    ]);
    assert_eq!(run(&mut world, "work", 4).get_str("content"), Some("done"));
    assert_eq!(world.prompts.len(), 2);
    let second = &world.prompts[1];
    let assistant = second.iter().find(|m| m.role == "assistant").unwrap();
    assert_eq!(assistant.content.as_deref(), Some("partial answer"));
    assert!(assistant.tool_calls.is_none());
    let last = second.last().unwrap();
    assert_eq!(last.role, "user");
    assert_eq!(last.content.as_deref(), Some(CONTINUE_NUDGE));
}

#[test]
fn agent_loop_ir_tool_turn_normalizes_empty_content_to_null() {
    let mut world = World::new(vec![
        response("", vec![call("call-1", "shell", r#"{"command":"printf ir-loop"}"#)]),
        response("done", vec![]),
    ]);
    assert_eq!(run(&mut world, "use shell", 4).get_str("content"), Some("done"));
    let assistant = world.prompts[1].iter().find(|m| m.role == "assistant").unwrap();
    assert_eq!(assistant.content, None);
    assert!(assistant.tool_calls.as_ref().map_or(false, |calls| !calls.is_empty()));
}

#[test]
fn agent_loop_ir_malformed_tool_call_does_not_abort_turn() {
    let mut world = World::new(vec![
        response("", vec![call("call-1", "shell", "{}")]),
        response("recovered", vec![]),
    ]);
    assert_eq!(run(&mut world, "bad tool", 4).get_str("content"), Some("recovered"));
    assert!(world.answer(1, "call-1").contains("invalid_arguments"));
    assert_eq!(world.evals, 0);
}

#[test]
fn agent_loop_ir_remember_then_recall_round_trips() {
    let mut world = World::new(vec![
        response(
            "",
            vec![call(
                "call-1",
                "remember",
                r#"{"name":"deploy-window","description":"when deploys are allowed",
                    "type":"project","content":"deploys only on tuesdays"}"#,
            )],
        ),
        response("", vec![call("call-2", "recall", r#"{"query":"when can we deploy"}"#)]),
        response("deploys happen on tuesdays", vec![]),
    ]);
    let value = run_with_memory(&mut world, "note the deploy window, then check it", 8);
    assert_eq!(value.get_str("content"), Some("deploys happen on tuesdays"));
    assert_eq!(world.memories[0].name, "deploy-window");
    assert!(world.answer(1, "call-1").contains("deploy-window"));
    assert!(world.answer(2, "call-2").contains("deploys only on tuesdays"));
}

#[test]
fn agent_loop_ir_remember_without_name_derives_a_slug() {
    let mut world = World::new(vec![
        response(
            "",
            vec![call(
                "call-1",
                "remember",
                r#"{"content":"deploys only on tuesdays","description":"Deploy Window"}"#,
            )],
        ),
        response("noted", vec![]),
    ]);
    let value = run_with_memory(&mut world, "remember the deploy window", 4);
    assert_eq!(value.get_str("content"), Some("noted"));
    assert_eq!(world.memories[0].name, "deploy-window");
    let content = world.answer(1, "call-1");
    assert!(content.contains("deploy-window"), "{content}");
    assert!(!content.contains("invalid_arguments"), "{content}");
}

#[test]
fn agent_loop_ir_remember_without_content_is_invalid() {
    let mut world = World::new(vec![
        response("", vec![call("call-1", "remember", r#"{"name":"no-body"}"#)]),
        response("noted the problem", vec![]),
    ]);
    let value = run_with_memory(&mut world, "remember badly", 4);
    assert_eq!(value.get_str("content"), Some("noted the problem"));
    assert!(world.answer(1, "call-1").contains("invalid_arguments"));
    assert!(world.memories.is_empty(), "nothing was written");
}

#[test]
fn agent_loop_ir_infer_tool_failure_becomes_a_recoverable_tool_result() {
    let arguments = r#"{"model":"sonnet-4-20250514","prompt":"sub-question"}"#;
    let mut world = World::new(vec![
        response("", vec![call("call-1", "infer", arguments)]),
        response("recovered from the bad infer", vec![]),
    ]);
    world.dead_model = Some("sonnet-4-20250514".to_string());
    let machine = agent_loop_ir(
        Model("mock-main".to_string()),
        &vec![ChatMessage::user("use infer, then answer")],
        6,
    );
    let value = world.run(machine).unwrap();
    assert_eq!(value.get_str("content"), Some("recovered from the bad infer"));
    let content = world.answer(1, "call-1");
    assert!(content.contains("\"ok\":false"), "{content}");
    assert!(content.contains("404"), "{content}");
}

#[test]
fn agent_loop_ir_remember_store_failure_becomes_a_recoverable_tool_result() {
    let mut world = World::new(vec![
        response(
            "",
            vec![call(
                "call-1",
                "remember",
                r#"{"name":"taken","content":"collides with an existing slug"}"#,
            )],
        ),
        response("acknowledged the collision", vec![]),
    ]);
    world.memories.push(Memory {
        name: "taken".to_string(),
        description: String::new(),
        memory_type: None,
        body: "already here".to_string(),
    });
    let value = run_with_memory(&mut world, "remember a colliding note, then answer", 6);
    assert_eq!(value.get_str("content"), Some("acknowledged the collision"));
    let content = world.answer(1, "call-1");
    assert!(content.contains("\"ok\":false"), "{content}");
    assert!(content.contains("already exists"), "{content}");
}

#[test]
fn agent_loop_ir_without_memory_tools_treats_remember_as_unknown() {
    let mut world = World::new(vec![
        response("", vec![call("call-1", "remember", r#"{"name":"x","content":"y"}"#)]),
        response("ok", vec![]),
    ]);
    assert_eq!(run(&mut world, "hallucinate a tool", 4).get_str("content"), Some("ok"));
    assert!(world.answer(1, "call-1").contains("unknown_tool"));
}

fn weather_turns() -> Vec<Response> {
    vec![
        response("", vec![call("call-1", "get_weather", r#"{"city":"sf"}"#)]),
        response("done: sunny in sf", vec![]),
    ]
}

#[test]
fn agent_loop_ir_dispatches_native_tool_with_effect_identity() {
    let mut world = World::new(weather_turns());
    let value = run_with_tool(&mut world, "what's the weather in sf?", "get_weather");
    assert_eq!(value.get_str("content"), Some("done: sunny in sf"));
    assert_eq!(world.tool_calls, 1);
    assert_eq!(world.answer(1, "call-1"), "sunny in sf");
    assert_eq!(world.evals, 0, "a native tool call must never become a shell execution");
    let effect = world
        .events
        .iter()
        .find_map(|event| match event {
            Event::ToolCall { name, effect, .. } if name == "get_weather" => effect.clone(),
            _ => None,
        })
        .expect("the call was recorded with its identity");
    assert!(effect.effect_id.starts_with("sha256:"));
}

#[test]
fn agent_loop_ir_native_tool_replays_by_effect_id_without_invoking_handler() {
    let prompt = vec![ChatMessage::user("what's the weather in sf?")];
    let machine =
        || agent_loop_ir_with_tools(model(), &prompt, 4, false, vec!["get_weather".to_string()]);
    let mut world = World::new(weather_turns());
    let recorded = world.run(machine()).unwrap();
    let recording = IrReplayTrace::from_events(&world.events).unwrap();
    match replay_run(machine(), &InMemoryStore::new(), &recording, 10_000) {
        Ok(IrStepOutcome::Complete { value, .. }) => {
            assert_eq!(value.to_text(), recorded.to_text())
        }
        other => panic!("{:?}", other),
    }
    assert_eq!(world.tool_calls, 1);
    // A run that asks for something else diverges.
    let mut other_machine = agent_loop_ir_with_tools(
        Model("other".to_string()),
        &prompt,
        4,
        false,
        vec!["get_weather".to_string()],
    );
    other_machine.program = machine().program;
    let other = agent_loop_ir(Model("other".to_string()), &prompt, 4);
    assert!(replay_run(other, &InMemoryStore::new(), &recording, 10_000).is_err());
}

#[test]
fn a_replay_stops_where_the_steps_end() {
    let prompt = vec![ChatMessage::user("hi")];
    let mut world = World::new(vec![response("done", vec![])]);
    world.run(agent_loop_ir(model(), &prompt, 4)).unwrap();
    let recording = IrReplayTrace::from_events(&world.events).unwrap();
    let outcome = replay_run(
        agent_loop_ir(model(), &prompt, 4),
        &InMemoryStore::new(),
        &recording,
        3,
    )
    .unwrap();
    let checkpoint = match outcome {
        IrStepOutcome::Suspended { checkpoint } => checkpoint,
        other => panic!("{:?}", other),
    };
    match replay_run(checkpoint.machine, &checkpoint.store, &recording, 10_000).unwrap() {
        IrStepOutcome::Complete { value, .. } => {
            assert_eq!(value.get_str("content"), Some("done"))
        }
        other => panic!("{:?}", other),
    }
}

#[test]
fn agent_loop_ir_native_tool_failure_is_a_recoverable_tool_result() {
    let mut world = World::new(vec![
        response("", vec![call("call-1", "get_weather", "{}")]),
        response("recovered from tool failure", vec![]),
    ]);
    world.weather = Err("weather service is down".to_string());
    let value = run_with_tool(&mut world, "try the tool", "get_weather");
    assert_eq!(value.get_str("content"), Some("recovered from tool failure"));
    let content = world.answer(1, "call-1");
    assert!(content.contains("\"ok\":false"), "{content}");
    assert!(content.contains("weather service is down"), "{content}");
}

#[test]
fn agent_loop_ir_unregistered_native_tool_binds_error_result() {
    let mut world = World::new(vec![
        response("", vec![call("call-1", "ghost", "{}")]),
        response("noted the missing tool", vec![]),
    ]);
    world.registered = false;
    let value = run_with_tool(&mut world, "call the ghost tool", "ghost");
    assert_eq!(value.get_str("content"), Some("noted the missing tool"));
    assert!(world.answer(1, "call-1").contains("no native tool"));
}

#[test]
fn native_tools_change_the_program_hash_and_unknown_message() {
    let m = || Model("m".to_string());
    let none: Vec<ChatMessage> = vec![];
    let plain = agent_loop_ir(m(), &none, 4);
    let with_native =
        agent_loop_ir_with_tools(m(), &none, 4, false, vec!["get_weather".to_string()]);
    assert_ne!(
        program_hash(&plain.program),
        program_hash(&with_native.program),
        "the tool set is part of the program identity"
    );
    validate_program(&with_native.program).unwrap();
    let both = agent_loop_ir_with_tools(
        m(),
        &none,
        4,
        true,
        vec!["get_weather".to_string(), "lookup".to_string()],
    );
    validate_program(&both.program).unwrap();
    let rendered = encode_program(&both.program).to_text();
    assert!(
        rendered.contains(
            "unknown tool; available tools: shell, infer, remember, recall, get_weather, lookup"
        ),
        "unknown-tool message names the full tool set"
    );
}

#[test]
fn memory_tools_only_change_the_program_when_enabled() {
    let m = || Model("m".to_string());
    let none: Vec<ChatMessage> = vec![];
    let plain = agent_loop_ir(m(), &none, 4);
    let plain_again = agent_loop_ir_with_options(m(), &none, 4, false);
    assert_eq!(
        program_hash(&plain.program),
        program_hash(&plain_again.program),
        "the default loop is byte-identical with tools off"
    );
    let with_tools = agent_loop_ir_with_options(m(), &none, 4, true);
    assert_ne!(program_hash(&plain.program), program_hash(&with_tools.program));
    validate_program(&with_tools.program).unwrap();
}

#[test]
fn agent_loop_ir_executes_shell_tool_then_finishes() {
    let mut world = World::new(vec![
        response("", vec![call("call-1", "shell", r#"{"command":"printf ir-loop"}"#)]),
        response("done", vec![]),
    ]);
    assert_eq!(run(&mut world, "use shell", 4).get_str("content"), Some("done"));
    assert!(world.answer(1, "call-1").contains("ir-loop"));
}

#[test]
fn agent_loop_ir_stop_with_tool_call_dispatches_before_finishing() {
    let mut world = World::new(vec![
        response("", vec![call("call-1", "shell", r#"{"command":"printf ir-loop"}"#)]),
        response("done", vec![]),
    ]);
    assert_eq!(run(&mut world, "use shell", 4).get_str("content"), Some("done"));
    assert_eq!(world.evals, 1);
}

#[test]
fn gated_loops_ask_before_commands() {
    let machine = agent_loop_ir_with_policies(model(), &opening(), 4, false, vec![], true);
    let mut driver = Driver::start(machine, "run".to_string(), None).unwrap();
    let mut world = World::new(vec![response(
        "",
        vec![call("call-1", "shell", r#"{"command":"printf x"}"#)],
    )]);
    let mut asked: Option<String> = None;
    for _ in 0..200 {
        let before = driver.executed;
        match driver.next().unwrap() {
            Action::Perform(effect) => {
                let (command, location) = match &effect {
                    Effect::Eval { command, location, .. } => (command.clone(), location.clone()),
                    _ => {
                        let (call, event) = driver.open_call(&effect, 1, scene());
                        world.events.push(event.unwrap());
                        let result = world.perform(&effect);
                        let outcome = driver.outcome_event(&effect, call, &result, closing());
                        world.events.push(outcome.unwrap());
                        driver.close_call(&effect, result).unwrap();
                        continue;
                    }
                };
                assert_eq!(command, "printf x");
                // Nobody decides: the effect waits, and is asked for again
                // under the same identity.
                let pending = match driver.approach(&effect, false, None) {
                    GateStep::Ask { event, pending } => {
                        let event = driver.gate_event(event, 0);
                        if asked.is_none() {
                            world.events.push(event);
                        }
                        pending
                    }
                    other => panic!("{:?}", other),
                };
                let (event, outcome) = after_answer(pending, None);
                assert!(event.is_none());
                assert!(matches!(driver.pass(&effect, outcome), Passage::Paused(_)));
                assert_eq!(driver.executed, before);
                match &asked {
                    None => asked = Some(location.effect_id.clone()),
                    Some(id) => {
                        assert_eq!(*id, location.effect_id);
                        break;
                    }
                }
            }
            Action::Moved => {}
            other => panic!("{:?}", other),
        }
    }
    assert!(asked.is_some());
    assert_eq!(world.evals, 0);
    // A replay of the recording waits at the same effect.
    let recording = IrReplayTrace::from_events(&world.events).unwrap();
    let machine = agent_loop_ir_with_policies(model(), &opening(), 4, false, vec![], true);
    match replay_run(machine, &InMemoryStore::new(), &recording, 1000).unwrap() {
        IrStepOutcome::AwaitingApproval { pending, .. } => {
            assert_eq!(Some(pending.effect.effect_id), asked)
        }
        other => panic!("{:?}", other),
    }
}

#[test]
fn drivers_keep_their_limits() {
    let mut world = World::new(vec![response("done", vec![])]);
    let machine = agent_loop_ir(model(), &opening(), 4);
    let mut driver = Driver::start(machine, "run".to_string(), Some(3)).unwrap();
    for _ in 0..3 {
        assert!(world.step(&mut driver).unwrap().is_none());
    }
    assert_eq!(world.step(&mut driver).unwrap_err(), "suspended");
    assert_eq!(driver.executed, 3);
    // The run goes on where it stopped.
    let resumed = world.run(driver.machine).unwrap();
    assert_eq!(resumed.get_str("content"), Some("done"));
}

#[test]
fn child_inferences_are_linked_to_their_turn() {
    let mut world = World::new(vec![
        response("", vec![call("call-1", "infer", r#"{"model":"mock","prompt":"sub question"}"#)]),
        response("sub answer", vec![]),
        response("done", vec![]),
    ]);
    run(&mut world, "go", 4);
    let parents: Vec<(u64, Option<u64>)> = world
        .events
        .iter()
        .filter_map(|e| match e {
            Event::InferCall { op_id, parent_op_id, .. } => Some((*op_id, *parent_op_id)),
            Event::InferResult { op_id, parent_op_id, .. } => Some((*op_id, *parent_op_id)),
            _ => None,
        })
        .collect();
    assert_eq!(parents, vec![(1, None), (1, None), (2, Some(1)), (2, Some(1)), (3, None), (3, None)]);
}

fn answer_schema() -> Json {
    json(r#"{"type":"object","required":["answer"],"properties":{"answer":{"type":"integer"}}}"#)
}

fn contract(schema: Json, max_repairs: usize) -> OutputContract {
    OutputContract { schema, max_repairs }
}

fn options(contract: Option<OutputContract>) -> AgentLoopOptions {
    AgentLoopOptions {
        memory_tools: false,
        tool_names: vec![],
        output_contract: contract,
        shell_requires_approval: false,
    }
}

/// Runs a loop whose final text is held to a contract.
fn run_loop(
    world: &mut World,
    contract: Option<OutputContract>,
    turns: usize,
) -> (Json, Machine, Vec<Json>) {
    let mut run = LoopRun::new(model(), turns, options(contract)).unwrap();
    let mut next = run.begin(&opening(), vec![]);
    let mut failures = Vec::new();
    loop {
        let (value, machine) = world.finish(next).unwrap();
        match run.after(value, machine) {
            LoopStep::Done { event, value, machine } => {
                failures.extend(event);
                return (value, machine, failures);
            }
            LoopStep::Again { event, machine } => {
                failures.push(event);
                next = machine;
            }
        }
    }
}

fn run_contract_loop(
    world: &mut World,
    c: &OutputContract,
    turns: usize,
) -> (Json, Machine, Vec<Json>) {
    run_loop(world, Some(contract(c.schema.clone(), c.max_repairs)), turns)
}

#[test]
fn output_contract_valid_response_passes_through() {
    let mut world = World::new(vec![response(r#"{"answer": 42}"#, vec![])]);
    let c = contract(answer_schema(), 2);
    let (value, _, failures) = run_contract_loop(&mut world, &c, 4);
    assert_eq!(value.get_str("content"), Some(r#"{"answer": 42}"#));
    assert!(failures.is_empty());
    assert_eq!(contract_event(&c).get_str("schema_hash"), Some(c.schema_hash().as_str()));
}

#[test]
fn output_contract_invalid_then_repaired() {
    let mut world =
        World::new(vec![response("not json at all", vec![]), response(r#"{"answer": 7}"#, vec![])]);
    let (value, machine, failures) =
        run_contract_loop(&mut world, &contract(answer_schema(), 2), 4);
    assert_eq!(value.get_str("content"), Some(r#"{"answer": 7}"#));
    assert_eq!(failures.len(), 1);
    assert_eq!(failures[0].get("attempt").unwrap().to_text(), "1");
    let first = failures[0].get("errors").unwrap().at(0).unwrap();
    assert!(first.as_str().unwrap().contains("not valid JSON"));
    assert_eq!(failures[0].get_str("preview"), Some("not json at all"));
    assert_eq!(world.prompts.len(), 2);
    let repair = &world.prompts[1];
    let assistant = repair.iter().find(|m| m.role == "assistant").unwrap();
    assert_eq!(assistant.content.as_deref(), Some("not json at all"));
    let last = repair.last().unwrap();
    assert_eq!(last.role, "user");
    let text = last.content.as_deref().unwrap();
    assert!(text.contains("not valid JSON"), "{text}");
    assert!(text.contains("ONLY a single JSON value"), "{text}");
    let history = get_field(&machine.env, "history").unwrap().to_text();
    assert!(history.contains("failed validation"), "repair exchange survives in history");
}

#[test]
fn output_contract_exhausted_repairs_return_typed_error_value() {
    let mut world = World::new(vec![
        response(r#"{"answer": "nope"}"#, vec![]),
        response(r#"{"wrong": true}"#, vec![]),
    ]);
    let (value, _, failures) = run_contract_loop(&mut world, &contract(answer_schema(), 1), 4);
    let failure = output_contract_failure(&value).expect("a contract failure value");
    assert_eq!(failure.attempts, 2);
    assert_eq!(failure.content, r#"{"wrong": true}"#);
    assert!(failure.errors.iter().any(|error| error.contains("answer")), "{failure:?}");
    assert_eq!(failures.len(), 2);
    assert_eq!(failures[0].get("attempt").unwrap().to_text(), "1");
    assert_eq!(failures[1].get("attempt").unwrap().to_text(), "2");
}

#[test]
fn output_contract_skips_budget_exhausted_turns() {
    let mut world = World::new(vec![spinning(), spinning()]);
    let (value, _, failures) = run_contract_loop(&mut world, &contract(answer_schema(), 2), 1);
    let metadata = value.get("metadata").unwrap();
    assert_eq!(metadata.get_str("stop_reason"), Some("turn_budget_exhausted"));
    assert!(failures.is_empty());
}

#[test]
fn output_contract_schema_hash_gates_replay() {
    let a = contract(answer_schema(), 2);
    let prompt = vec![ChatMessage::user("go")];
    let start = || {
        let held = contract(answer_schema(), 2);
        let mut run = LoopRun::new(model(), 4, options(Some(held))).unwrap();
        let machine = run.begin(&prompt, vec![]);
        (run, machine)
    };
    let mut world = World::new(vec![response(r#"{"answer": 1}"#, vec![])]);
    world.events.push(Event::Custom {
        run_id: "run".to_string(),
        name: OUTPUT_CONTRACT_EVENT.to_string(),
        data: contract_event(&a),
        timestamp: 0,
    });
    let (mut run, machine) = start();
    let (value, machine) = world.finish(machine).unwrap();
    match run.after(value, machine) {
        LoopStep::Done { value, .. } => {
            assert_eq!(value.get_str("content"), Some(r#"{"answer": 1}"#));
        }
        other => panic!("{:?}", other),
    }
    let recording = IrReplayTrace::from_events(&world.events).unwrap();
    assert_eq!(recording.output_schema_hash(), Some(a.schema_hash().as_str()));

    // The same contract is replayed from what was recorded.
    assert!(check_output_schema_hash(&recording, Some(&a)).is_ok());
    let (mut again, machine) = start();
    let replayed = replay_run(machine, &InMemoryStore::new(), &recording, 10_000).unwrap();
    match replayed {
        IrStepOutcome::Complete { value, machine } => match again.after(value, machine) {
            LoopStep::Done { value, .. } => {
                assert_eq!(value.get_str("content"), Some(r#"{"answer": 1}"#));
            }
            other => panic!("{:?}", other),
        },
        other => panic!("{:?}", other),
    }

    // Another schema, or none, is refused.
    let b = contract(json(r#"{"type":"array"}"#), 2);
    let err = check_output_schema_hash(&recording, Some(&b)).unwrap_err();
    assert!(err.contains("schema_hash"), "{err}");
    let err = check_output_schema_hash(&recording, None).unwrap_err();
    assert!(err.contains("schema_hash"), "{err}");
}

#[test]
fn output_contract_absent_leaves_loop_untouched() {
    let mut world = World::new(vec![response("plain text", vec![])]);
    let (value, _, failures) = run_loop(&mut world, None, 4);
    assert_eq!(value.get_str("content"), Some("plain text"));
    assert!(failures.is_empty());
    assert!(!world.events.iter().any(|e| matches!(e, Event::Custom { .. })));
}
