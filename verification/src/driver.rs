//! Runs that carry out their effects.  A driver says what is to be done next
//! and which events are recorded around it; whoever drives it does the work
//! and hands back what came of it.
use crate::approval;
use crate::approval::{
    reach_gate, replay_gate, ApprovalKind, ApprovalRequest, ApprovalResolution,
    ApprovalResolutionV, GateEvent, GateEventV, GateOutcome, GateOutcomeV, GateStep, GateStepV,
};
use crate::codec;
use crate::codec::encode_response;
use crate::effect::EffectSite;
use crate::hydration;
use crate::hydration::bytes_of;
use crate::interpreter;
use crate::interpreter::{
    eval_approval_request, infer_lineage, store_approval_request, CheckpointV, InMemoryStore,
    IrCheckpoint, IrStepOutcome, OutcomeV,
};
use crate::ir::EffectErrorMode;
use crate::ir_flow;
use crate::ir_flow::validate_program;
use crate::ir_hash;
use crate::ir_hash::program_hash;
use crate::json;
use crate::json::{Json, JsonV};
use crate::machine;
use crate::machine::{Effect, EffectV, Machine, MachineV, RunError, RunErrorV, Step, StepV};
use crate::op;
use crate::op::{copy_opt, ChatMessageV, Prompt, Response, ResponseV};
use crate::replay;
use crate::replay::{
    IrReplayTrace, IrReplayTraceV, IrRetrieveCall, IrRetrieveCallV, IrStoreCall,
    IrStoreCallV, ReplayError, ReplayErrorV,
};
use crate::text;
use crate::text::preview;
use crate::trace;
use crate::trace::{copy_opt_strings, Event, EventV};
use vstd::prelude::*;

verus! {

/// A run: a machine, and what is counted and remembered on the way.
#[derive(Debug)]
pub struct Driver {
    pub machine: Machine,
    /// The hash of the program.
    pub hash: String,
    pub run_id: String,
    /// The most steps that are taken.
    pub limit: Option<usize>,
    /// The steps that were taken.
    pub executed: usize,
    /// The operation of the last inference with every tool on offer.
    pub last_turn: Option<u64>,
}

/// The model of a run.
pub struct DriverV {
    pub machine: MachineV,
    pub hash: Seq<char>,
    pub run_id: Seq<char>,
    pub limit: Option<usize>,
    pub executed: usize,
    pub last_turn: Option<u64>,
}

impl Driver {
    pub open spec fn view(&self) -> DriverV {
        DriverV {
            machine: self.machine@,
            hash: self.hash@,
            run_id: self.run_id@,
            limit: self.limit,
            executed: self.executed,
            last_turn: self.last_turn,
        }
    }
}

/// What is to be done next.
#[derive(Debug)]
pub enum Action {
    /// Nothing: the machine moved on by itself.
    Moved,
    /// The event that this value encodes is recorded.
    Emit(Json),
    /// This effect is carried out, if its gate opens.
    Perform(Effect),
    /// The steps are used up.
    Suspend,
    /// The program has returned.
    Complete(Json),
}

/// What is to be done next, and the run that it leaves.
pub enum ActionV {
    Moved(DriverV),
    Emit(DriverV, JsonV),
    Perform(DriverV, EffectV),
    Suspend,
    Complete(JsonV),
}

/// One step more, as far as it can be counted.
pub open spec fn counted(n: usize) -> usize {
    if n == usize::MAX {
        n
    } else {
        (n + 1) as usize
    }
}

/// A run with another machine, one step later.
pub open spec fn advanced(d: DriverV, m: MachineV) -> DriverV {
    DriverV { machine: m, executed: counted(d.executed), ..d }
}

/// Whether the steps are used up.
pub open spec fn used_up(d: DriverV) -> bool {
    match d.limit {
        Some(n) => d.executed >= n,
        None => false,
    }
}

/// What is to be done next.  Steps between blocks count too, so that a
/// program that only moves between blocks also comes to its limit.
pub open spec fn next_action(d: DriverV) -> Result<ActionV, RunErrorV> {
    if used_up(d) {
        Ok(ActionV::Suspend)
    } else {
        match machine::stepped(d.machine, d.hash) {
            Err(e) => Err(e),
            Ok(StepV::Moved(m)) => Ok(ActionV::Moved(advanced(d, m))),
            Ok(StepV::Complete(v)) => Ok(ActionV::Complete(v)),
            Ok(StepV::Effect(m, EffectV::Emit { event })) => Ok(
                ActionV::Emit(advanced(d, MachineV { pc: m.pc + 1, ..m }), event),
            ),
            Ok(StepV::Effect(m, e)) => Ok(ActionV::Perform(DriverV { machine: m, ..d }, e)),
        }
    }
}

/// Whether an action and the run after it are as the model says.  A run that
/// is suspended or has returned is left as it was.
pub open spec fn acts_as(
    r: Result<Action, RunError>,
    before: DriverV,
    after: DriverV,
    goal: Result<ActionV, RunErrorV>,
) -> bool {
    match (r, goal) {
        (Ok(Action::Moved), Ok(ActionV::Moved(d))) => after == d,
        (Ok(Action::Emit(v)), Ok(ActionV::Emit(d, x))) => after == d && v@ == x,
        (Ok(Action::Perform(e)), Ok(ActionV::Perform(d, x))) => after == d && e@ == x,
        (Ok(Action::Suspend), Ok(ActionV::Suspend)) => after == before,
        (Ok(Action::Complete(v)), Ok(ActionV::Complete(x))) => after == before && v@ == x,
        (Err(e), Err(x)) => after == (DriverV { machine: machine::failed(before.machine), ..before })
            && e@ == x,
        _ => false,
    }
}

fn count(n: usize) -> (r: usize)
    ensures
        r == counted(n),
{
    if n == usize::MAX {
        n
    } else {
        n + 1
    }
}

/// The variable that an effect gives its result to.
pub open spec fn out_of(e: EffectV) -> Option<Seq<char>> {
    match e {
        EffectV::Infer { out, .. } => Some(out),
        EffectV::Eval { out, .. } => Some(out),
        EffectV::Retrieve { out, .. } => Some(out),
        EffectV::Store { out, .. } => Some(out),
        EffectV::Tool { out, .. } => Some(out),
        EffectV::Emit { .. } => None,
    }
}

/// What becomes of a failure of an effect.
pub open spec fn mode_of(e: EffectV) -> EffectErrorMode {
    match e {
        EffectV::Infer { on_error, .. } => on_error,
        EffectV::Retrieve { on_error, .. } => on_error,
        EffectV::Store { on_error, .. } => on_error,
        EffectV::Tool { on_error, .. } => on_error,
        _ => EffectErrorMode::Abort,
    }
}

/// What comes of a gate.
#[derive(Debug)]
pub enum Passage {
    /// The effect is carried out.
    Proceed,
    /// It was denied; the denial is bound and the run goes on.
    Denied,
    /// Nobody has decided; the run stops before the effect.
    Paused(ApprovalRequest),
}

/// How a run comes to an effect that may be gated.  An evaluation is gated by its instruction, a
/// store by its sink; nothing else has a gate.
pub open spec fn approached(
    d: DriverV,
    e: EffectV,
    guarded: bool,
    resolution: Option<ApprovalResolutionV>,
) -> GateStepV {
    match e {
        EffectV::Eval { location, command, argv, gated, .. } => approval::reached(
            d.run_id,
            location,
            ApprovalKind::Eval,
            interpreter::eval_request(command, argv),
            gated,
            resolution,
        ),
        EffectV::Store { location, sink, op, id, item, content_hash, .. } => approval::reached(
            d.run_id,
            location,
            ApprovalKind::Store,
            interpreter::store_request(sink, op, id, item, content_hash),
            guarded,
            resolution,
        ),
        _ => GateStepV::Open,
    }
}

/// How a replay comes to an effect that may be gated: the recording alone decides, and
/// no sink is asked.
pub open spec fn approached_again(e: EffectV, t: IrReplayTraceV) -> Result<
    (Seq<GateEventV>, GateOutcomeV),
    ReplayErrorV,
> {
    match e {
        EffectV::Eval { location, command, argv, gated, .. } => approval::replayed(
            t,
            location,
            ApprovalKind::Eval,
            interpreter::eval_request(command, argv),
            gated,
        ),
        EffectV::Store { location, sink, op, id, item, content_hash, .. } => approval::replayed(
            t,
            location,
            ApprovalKind::Store,
            interpreter::store_request(sink, op, id, item, content_hash),
            false,
        ),
        _ => Ok((Seq::empty(), GateOutcomeV::Proceed)),
    }
}

/// The run after a gate.
pub open spec fn passed(d: DriverV, e: EffectV, outcome: GateOutcomeV) -> DriverV {
    match (outcome, out_of(e)) {
        (GateOutcomeV::Deny(v), Some(out)) => advanced(d, machine::went_on(d.machine, out, v)),
        (GateOutcomeV::Pause(_), _) => DriverV {
            machine: machine::rewound(d.machine, interpreter::site_of(d.machine)),
            ..d
        },
        _ => d,
    }
}

/// The event that a gate records.
pub open spec fn gate_record(d: DriverV, e: GateEventV, timestamp: i128) -> EventV {
    match e {
        GateEventV::Requested { pending_id, kind, request, effect } => EventV::ApprovalRequested {
            run_id: d.run_id,
            pending_id,
            kind: kind.text(),
            request,
            effect,
            timestamp,
        },
        GateEventV::Resolved { pending_id, effect_id, kind, decision, resolved_by, reason } =>
        EventV::ApprovalResolved {
            run_id: d.run_id,
            pending_id,
            effect_id,
            kind: kind.text(),
            decision,
            resolved_by,
            reason,
            timestamp,
        },
    }
}

/// What only the surroundings know about a call.
#[derive(Debug)]
pub struct Scene {
    /// The messages of an inference, where they are recorded in full.
    pub prompt: Option<Prompt>,
    pub prompt_preview: String,
    /// Where and how a command is run.
    pub cwd: Option<String>,
    pub env_policy: String,
    pub timeout_ms: u64,
    pub timestamp: i128,
}

/// The model of a scene.
pub struct SceneV {
    pub prompt: Option<Seq<ChatMessageV>>,
    pub prompt_preview: Seq<char>,
    pub cwd: Option<Seq<char>>,
    pub env_policy: Seq<char>,
    pub timeout_ms: u64,
    pub timestamp: i128,
}

impl Scene {
    pub open spec fn view(&self) -> SceneV {
        SceneV {
            prompt: trace::opt_prompt(self.prompt),
            prompt_preview: self.prompt_preview@,
            cwd: op::opt_text(self.cwd),
            env_policy: self.env_policy@,
            timeout_ms: self.timeout_ms,
            timestamp: self.timestamp,
        }
    }
}

/// An operation and the one that it belongs to.
#[derive(Debug, Clone, Copy, PartialEq, Eq, Structural)]
pub struct Call {
    pub op_id: u64,
    pub parent_op_id: Option<u64>,
}

/// The call that an operation makes, and the turn that later calls belong to.
pub open spec fn call_of(d: DriverV, e: EffectV, op_id: u64) -> (Call, Option<u64>) {
    match e {
        EffectV::Infer { tools, .. } => {
            let (parent_op_id, turn) = interpreter::lineage(d.last_turn, tools is Some, op_id);
            (Call { op_id, parent_op_id }, turn)
        },
        _ => (Call { op_id, parent_op_id: None }, d.last_turn),
    }
}

/// The event that is recorded before an effect is carried out.
pub open spec fn call_record(d: DriverV, e: EffectV, call: Call, scene: SceneV) -> Option<EventV> {
    let run_id = d.run_id;
    let op_id = call.op_id;
    let parent_op_id = call.parent_op_id;
    let timestamp = scene.timestamp;
    match e {
        EffectV::Infer { location, model, .. } => Some(
            EventV::InferCall {
                run_id,
                op_id,
                parent_op_id,
                model,
                prompt: scene.prompt,
                prompt_preview: scene.prompt_preview,
                effect: Some(location),
                timestamp,
            },
        ),
        EffectV::Eval { location, command, argv, .. } => Some(
            EventV::EvalCall {
                run_id,
                op_id,
                parent_op_id,
                command,
                argv,
                cwd: scene.cwd,
                env_policy: scene.env_policy,
                timeout_ms: scene.timeout_ms,
                effect: Some(location),
                timestamp,
            },
        ),
        EffectV::Retrieve { location, query, kind, max_bytes, .. } => Some(
            EventV::RetrieveCall {
                run_id,
                op_id,
                parent_op_id,
                query,
                kind: interpreter::kind_text(kind),
                max_bytes,
                effect: Some(location),
                timestamp,
            },
        ),
        EffectV::Store { location, sink, op, id, item, content_hash, .. } => Some(
            EventV::StoreCall {
                run_id,
                op_id,
                parent_op_id,
                sink,
                store_op: op.text(),
                store_id: id,
                item_preview: text::prefix(json::json_text(item), 256),
                content_hash,
                effect: Some(location),
                timestamp,
            },
        ),
        EffectV::Tool { location, name, arguments, .. } => Some(
            EventV::ToolCall {
                run_id,
                op_id,
                parent_op_id,
                name,
                arguments,
                effect: Some(location),
                timestamp,
            },
        ),
        EffectV::Emit { .. } => None,
    }
}

/// What an effect gave.
#[derive(Debug)]
pub enum Answer {
    /// The completion of an inference.
    Response(Response),
    /// The id under which a sink has stored.
    Id(String),
    Value(Json),
}

/// The model of an answer.
pub enum AnswerV {
    Response(ResponseV),
    Id(Seq<char>),
    Value(JsonV),
}

impl Answer {
    pub open spec fn view(&self) -> AnswerV {
        match self {
            Answer::Response(x) => AnswerV::Response(x@),
            Answer::Id(x) => AnswerV::Id(x@),
            Answer::Value(x) => AnswerV::Value(x@),
        }
    }
}

/// The model of what came of an effect.
pub open spec fn answer_of(r: Result<Answer, String>) -> Result<AnswerV, Seq<char>> {
    match r {
        Ok(a) => Ok(a@),
        Err(e) => Err(e@),
    }
}

/// The value that an answer is bound as.
pub open spec fn answer_json(a: AnswerV) -> JsonV {
    match a {
        AnswerV::Response(x) => codec::response_json(x),
        AnswerV::Id(x) => JsonV::Str(x),
        AnswerV::Value(x) => x,
    }
}

/// What came of an effect, as it is bound.
pub open spec fn bound_result(r: Result<AnswerV, Seq<char>>) -> Result<JsonV, Seq<char>> {
    match r {
        Ok(a) => Ok(answer_json(a)),
        Err(e) => Err(e),
    }
}

/// Whether an answer is of the form that an effect has its answers in.
pub open spec fn fits(e: EffectV, r: Result<AnswerV, Seq<char>>) -> bool {
    match (e, r) {
        (EffectV::Emit { .. }, _) => false,
        (_, Err(_)) => true,
        (EffectV::Infer { .. }, Ok(a)) => a is Response,
        (EffectV::Store { .. }, Ok(a)) => a is Id,
        (_, Ok(a)) => a is Value,
    }
}

/// What only the surroundings know about the end of a call.
#[derive(Debug)]
pub struct Closing {
    pub response_preview: String,
    pub elapsed_ms: u64,
    pub timestamp: i128,
}

/// The model of a closing.
pub struct ClosingV {
    pub response_preview: Seq<char>,
    pub elapsed_ms: u64,
    pub timestamp: i128,
}

impl Closing {
    pub open spec fn view(&self) -> ClosingV {
        ClosingV {
            response_preview: self.response_preview@,
            elapsed_ms: self.elapsed_ms,
            timestamp: self.timestamp,
        }
    }
}

/// Whether a field of a value is true.
pub open spec fn flag(v: JsonV, key: Seq<char>) -> bool {
    match v.field(key) {
        Some(x) => x.as_bool() == Some(true),
        None => false,
    }
}

/// A number field of a value, zero where there is none.
pub open spec fn number_field(v: JsonV, key: Seq<char>) -> u64 {
    match v.field(key) {
        Some(x) => match x.as_u64() {
            Some(n) => n as u64,
            None => 0,
        },
        None => 0,
    }
}

/// The number of items of a value, zero where it is no list.
pub open spec fn item_count(v: JsonV) -> nat {
    match v.as_items() {
        Some(items) => items.len(),
        None => 0,
    }
}

/// The event that is recorded after an effect has ended.
pub open spec fn outcome_record(
    d: DriverV,
    e: EffectV,
    call: Call,
    r: Result<AnswerV, Seq<char>>,
    closing: ClosingV,
) -> Option<EventV> {
    let run_id = d.run_id;
    let op_id = call.op_id;
    let parent_op_id = call.parent_op_id;
    let duration_ms = closing.elapsed_ms;
    let timestamp = closing.timestamp;
    match (e, r) {
        (EffectV::Infer { .. }, Ok(AnswerV::Response(x))) => Some(
            EventV::InferResult {
                run_id,
                op_id,
                parent_op_id,
                response: Some(x),
                response_preview: closing.response_preview,
                input_tokens: x.input_tokens,
                output_tokens: x.output_tokens,
                total_tokens: x.total_tokens,
                cached_input_tokens: x.cached_input_tokens,
                cost_micro_usd: x.cost_micro_usd,
                pricing: x.pricing,
                duration_ms,
                timestamp,
            },
        ),
        (EffectV::Infer { .. }, Err(error)) => Some(
            EventV::InferError { run_id, op_id, parent_op_id, error, duration_ms, timestamp },
        ),
        (EffectV::Eval { command, .. }, Ok(AnswerV::Value(result))) => Some(
            EventV::EvalResult {
                run_id,
                op_id,
                parent_op_id,
                command,
                result,
                duration_ms: number_field(result, "duration_ms"@),
                truncated_stdout: flag(result, "stdout_truncated"@),
                truncated_stderr: flag(result, "stderr_truncated"@),
                timestamp,
            },
        ),
        (EffectV::Eval { command, .. }, Err(error)) => Some(
            EventV::EvalError {
                run_id,
                op_id,
                parent_op_id,
                command,
                error,
                duration_ms,
                timestamp,
            },
        ),
        (EffectV::Retrieve { .. }, Ok(AnswerV::Value(results))) => Some(
            EventV::RetrieveResult {
                run_id,
                op_id,
                parent_op_id,
                results,
                result_preview: text::prefix(json::json_text(results), 512),
                source_count: item_count(results) as usize,
                bytes: hydration::byte_len(json::json_text(results)) as usize,
                duration_ms,
                timestamp,
            },
        ),
        (EffectV::Retrieve { .. }, Err(error)) => Some(
            EventV::RetrieveError { run_id, op_id, parent_op_id, error, duration_ms, timestamp },
        ),
        (EffectV::Store { sink, .. }, Ok(AnswerV::Id(sink_id))) => Some(
            EventV::StoreResult {
                run_id,
                op_id,
                parent_op_id,
                sink,
                sink_id,
                duration_ms,
                timestamp,
            },
        ),
        (EffectV::Store { sink, .. }, Err(error)) => Some(
            EventV::StoreError { run_id, op_id, parent_op_id, sink, error, duration_ms, timestamp },
        ),
        (EffectV::Tool { name, .. }, Ok(AnswerV::Value(result))) => Some(
            EventV::ToolResult {
                run_id,
                op_id,
                parent_op_id,
                name,
                result,
                result_preview: text::prefix(json::json_text(result), 512),
                duration_ms,
                timestamp,
            },
        ),
        (EffectV::Tool { name, .. }, Err(error)) => Some(
            EventV::ToolError { run_id, op_id, parent_op_id, name, error, duration_ms, timestamp },
        ),
        _ => None,
    }
}

/// The run after an effect has ended: the answer is bound, and a failure is
/// bound or ends the run, as the instruction says.
pub open spec fn closed(d: DriverV, e: EffectV, r: Result<AnswerV, Seq<char>>) -> Result<
    DriverV,
    RunErrorV,
> {
    match out_of(e) {
        None => Ok(d),
        Some(out) => match interpreter::settled(d.machine, out, mode_of(e), bound_result(r)) {
            Ok(m) => Ok(advanced(d, m)),
            Err(x) => Err(x),
        },
    }
}

/// What a recording says came of an effect.
pub open spec fn recorded_answer(e: EffectV, t: IrReplayTraceV) -> Result<AnswerV, Seq<char>> {
    match e {
        EffectV::Infer { location, model, .. } => match replay::infer_answer(t, location, model) {
            Ok(x) => Ok(AnswerV::Response(x)),
            Err(x) => Err(replay::replay_error_text(x)),
        },
        EffectV::Eval { location, command, argv, .. } => match replay::eval_answer(
            t,
            location,
            command,
            argv,
        ) {
            Ok(x) => Ok(AnswerV::Value(x)),
            Err(x) => Err(replay::replay_error_text(x)),
        },
        EffectV::Retrieve { location, query, kind, max_bytes, .. } => match replay::retrieve_answer(
            t,
            location,
            IrRetrieveCallV { query, kind: interpreter::kind_text(kind), max_bytes },
        ) {
            Ok(x) => Ok(AnswerV::Value(x)),
            Err(x) => Err(replay::replay_error_text(x)),
        },
        EffectV::Store { location, sink, op, id, content_hash, .. } => match replay::store_answer(
            t,
            location,
            IrStoreCallV { sink, op: op.text(), id, content_hash },
        ) {
            Ok(x) => Ok(AnswerV::Id(x)),
            Err(x) => Err(replay::replay_error_text(x)),
        },
        EffectV::Tool { location, name, arguments, .. } => match replay::tool_answer(
            t,
            location,
            name,
            arguments,
        ) {
            Ok(x) => Ok(AnswerV::Value(x)),
            Err(x) => Err(replay::replay_error_text(x)),
        },
        EffectV::Emit { event } => Ok(AnswerV::Value(event)),
    }
}

/// The model of an optional event.
pub open spec fn opt_event(e: Option<Event>) -> Option<EventV> {
    match e {
        Some(x) => Some(x@),
        None => None,
    }
}

fn is_set(v: &Json, key: &str) -> (r: bool)
    ensures
        r == flag(v@, key@),
{
    match v.get(key) {
        Some(x) => match x.as_bool() {
            Some(b) => b,
            None => false,
        },
        None => false,
    }
}

fn number_at(v: &Json, key: &str) -> (r: u64)
    ensures
        r == number_field(v@, key@),
{
    match v.get(key) {
        Some(x) => match x.as_u64() {
            Some(n) => n,
            None => 0,
        },
        None => 0,
    }
}

fn items_in(v: &Json) -> (r: usize)
    ensures
        r == item_count(v@),
{
    match v.as_array() {
        Some(items) => items.len(),
        None => 0,
    }
}

impl Effect {
    /// The variable that the effect gives its result to.
    fn out(&self) -> (r: Option<String>)
        ensures
            op::opt_text(r) == out_of(self@),
    {
        match self {
            Effect::Infer { out, .. } => Some(out.clone()),
            Effect::Eval { out, .. } => Some(out.clone()),
            Effect::Retrieve { out, .. } => Some(out.clone()),
            Effect::Store { out, .. } => Some(out.clone()),
            Effect::Tool { out, .. } => Some(out.clone()),
            Effect::Emit { .. } => None,
        }
    }

    /// What becomes of a failure of the effect.
    fn mode(&self) -> (r: EffectErrorMode)
        ensures
            r == mode_of(self@),
    {
        match self {
            Effect::Infer { on_error, .. } => *on_error,
            Effect::Retrieve { on_error, .. } => *on_error,
            Effect::Store { on_error, .. } => *on_error,
            Effect::Tool { on_error, .. } => *on_error,
            _ => EffectErrorMode::Abort,
        }
    }
}

impl Answer {
    /// The value that the answer is bound as.
    pub fn to_json(&self) -> (r: Json)
        ensures
            r@ == answer_json(self@),
    {
        match self {
            Answer::Response(x) => encode_response(x),
            Answer::Id(x) => Json::Str(x.clone()),
            Answer::Value(x) => x.clone(),
        }
    }
}

impl Driver {
    /// Begins a run, if the program is valid.
    pub fn start(machine: Machine, run_id: String, limit: Option<usize>) -> (r: Result<
        Driver,
        RunError,
    >)
        ensures
            match r {
                Ok(d) => ir_flow::valid(machine@.program) && d@ == (DriverV {
                    machine: machine@,
                    hash: ir_hash::program_digest(machine@.program),
                    run_id: run_id@,
                    limit,
                    executed: 0,
                    last_turn: None,
                }),
                Err(RunError::Invalid(e)) => !ir_flow::valid(machine@.program) && ir_flow::is_wrong(
                    machine@.program,
                    e@,
                ),
                Err(_) => false,
            },
    {
        match validate_program(&machine.program) {
            Ok(_) => {},
            Err(e) => {
                return Err(RunError::Invalid(e));
            },
        }
        let hash = program_hash(&machine.program);
        Ok(Driver { machine, hash, run_id, limit, executed: 0, last_turn: None })
    }

    /// Says what is to be done next.
    pub fn next(&mut self) -> (r: Result<Action, RunError>)
        ensures
            acts_as(r, old(self)@, final(self)@, next_action(old(self)@)),
            r matches Ok(Action::Perform(_)) ==> final(self).machine.pc < usize::MAX,
    {
        if let Some(n) = self.limit {
            if self.executed >= n {
                return Ok(Action::Suspend);
            }
        }
        match self.machine.step(self.hash.as_str()) {
            Err(e) => Err(e),
            Ok(Step::Moved) => {
                self.executed = count(self.executed);
                Ok(Action::Moved)
            },
            Ok(Step::Complete(v)) => Ok(Action::Complete(v)),
            Ok(Step::Effect(Effect::Emit { event })) => {
                self.machine.pc = self.machine.pc + 1;
                self.executed = count(self.executed);
                Ok(Action::Emit(event))
            },
            Ok(Step::Effect(e)) => Ok(Action::Perform(e)),
        }
    }

    /// The outcome of a run whose steps are used up.  Without a snapshot of
    /// what stands behind it a run cannot be taken up again.
    pub fn suspended(self, snapshot: Option<InMemoryStore>) -> (r: Result<IrStepOutcome, String>)
        ensures
            match r {
                Ok(outcome) => snapshot is Some && outcome@ == OutcomeV::Suspended(
                    CheckpointV { machine: self@.machine, store: snapshot->0@ },
                ),
                Err(e) => snapshot is None && e@
                    == "AgentIR instruction-limit checkpoints require an in-memory store snapshot"@,
            },
    {
        match snapshot {
            Some(store) => Ok(
                IrStepOutcome::Suspended {
                    checkpoint: IrCheckpoint { machine: self.machine, store },
                },
            ),
            None => Err(
                "AgentIR instruction-limit checkpoints require an in-memory store snapshot".to_owned(),
            ),
        }
    }

    /// The outcome of a run that waits for a decision.
    pub fn waiting(self, pending: ApprovalRequest, snapshot: Option<InMemoryStore>) -> (r: Result<
        IrStepOutcome,
        String,
    >)
        ensures
            match r {
                Ok(outcome) => snapshot is Some && outcome@ == OutcomeV::AwaitingApproval(
                    CheckpointV { machine: self@.machine, store: snapshot->0@ },
                    pending@,
                ),
                Err(e) => snapshot is None && e@
                    == "AgentIR approval pauses require an in-memory store snapshot"@,
            },
    {
        match snapshot {
            Some(store) => Ok(
                IrStepOutcome::AwaitingApproval {
                    checkpoint: IrCheckpoint { machine: self.machine, store },
                    pending,
                },
            ),
            None => Err("AgentIR approval pauses require an in-memory store snapshot".to_owned()),
        }
    }

    /// Comes to an effect that may be gated.  A store is `guarded` where its
    /// sink asks for approval.
    pub fn approach(
        &self,
        e: &Effect,
        guarded: bool,
        resolution: Option<&ApprovalResolution>,
    ) -> (r: GateStep)
        ensures
            r@ == approached(self@, e@, guarded, approval::opt_resolution(resolution)),
    {
        match e {
            Effect::Eval { location, command, argv, gated, .. } => reach_gate(
                self.run_id.as_str(),
                location,
                ApprovalKind::Eval,
                eval_approval_request(command.as_str(), argv),
                *gated,
                resolution,
            ),
            Effect::Store { location, sink, op, id, item, content_hash, .. } => reach_gate(
                self.run_id.as_str(),
                location,
                ApprovalKind::Store,
                store_approval_request(sink.as_str(), *op, id, item, content_hash.as_str()),
                guarded,
                resolution,
            ),
            _ => GateStep::Open,
        }
    }

    /// Comes to an effect that may be gated, under replay.
    pub fn approach_again(&self, e: &Effect, recording: &IrReplayTrace) -> (r: Result<
        (Vec<GateEvent>, GateOutcome),
        ReplayError,
    >)
        ensures
            match (r, approached_again(e@, recording@)) {
                (Ok(a), Ok(b)) => approval::gate_events(a.0@) == b.0 && a.1@ == b.1,
                (Err(a), Err(b)) => a@ == b,
                _ => false,
            },
    {
        match e {
            Effect::Eval { location, command, argv, gated, .. } => replay_gate(
                recording,
                location,
                ApprovalKind::Eval,
                eval_approval_request(command.as_str(), argv),
                *gated,
            ),
            Effect::Store { location, sink, op, id, item, content_hash, .. } => replay_gate(
                recording,
                location,
                ApprovalKind::Store,
                store_approval_request(sink.as_str(), *op, id, item, content_hash.as_str()),
                false,
            ),
            _ => {
                let none: Vec<GateEvent> = Vec::new();
                assert(approval::gate_events(none@) =~= Seq::empty());
                Ok((none, GateOutcome::Proceed))
            },
        }
    }

    /// Follows what was decided on an effect.
    pub fn pass(&mut self, e: &Effect, outcome: GateOutcome) -> (r: Passage)
        requires
            old(self).machine.pc < usize::MAX,
        ensures
            final(self)@ == passed(old(self)@, e@, outcome@),
            match outcome@ {
                GateOutcomeV::Proceed => r is Proceed,
                GateOutcomeV::Deny(_) => r is Denied,
                GateOutcomeV::Pause(p) => r matches Passage::Paused(x) && x@ == p,
            },
            r is Proceed ==> final(self).machine.pc < usize::MAX,
    {
        match outcome {
            GateOutcome::Proceed => Passage::Proceed,
            GateOutcome::Deny(v) => {
                if let Some(out) = e.out() {
                    self.machine.bind_result(out, v);
                    self.executed = count(self.executed);
                }
                Passage::Denied
            },
            GateOutcome::Pause(pending) => {
                let site = EffectSite {
                    block: self.machine.block,
                    instruction_index: self.machine.pc,
                };
                self.machine.rewind_visit(site);
                Passage::Paused(pending)
            },
        }
    }

    /// The event that a gate records.
    pub fn gate_event(&self, e: GateEvent, timestamp: i128) -> (r: Event)
        ensures
            r@ == gate_record(self@, e@, timestamp),
    {
        let run_id = self.run_id.clone();
        match e {
            GateEvent::Requested { pending_id, kind, request, effect } => Event::ApprovalRequested {
                run_id,
                pending_id,
                kind: kind.as_str().to_owned(),
                request,
                effect,
                timestamp,
            },
            GateEvent::Resolved { pending_id, effect_id, kind, decision, resolved_by, reason } =>
            Event::ApprovalResolved {
                run_id,
                pending_id,
                effect_id,
                kind: kind.as_str().to_owned(),
                decision,
                resolved_by,
                reason,
                timestamp,
            },
        }
    }

    /// Opens the call of an effect under a new operation: gives the call and
    /// the event that is recorded before it.
    pub fn open_call(&mut self, e: &Effect, op_id: u64, scene: Scene) -> (r: (Call, Option<Event>))
        ensures
            ({
                let (call, turn) = call_of(old(self)@, e@, op_id);
                &&& r.0 == call
                &&& opt_event(r.1) == call_record(old(self)@, e@, call, scene@)
                &&& final(self)@ == (DriverV { last_turn: turn, ..old(self)@ })
                &&& final(self).machine == old(self).machine
            }),
    {
        let run_id = self.run_id.clone();
        let timestamp = scene.timestamp;
        match e {
            Effect::Infer { location, model, tools, .. } => {
                let (parent_op_id, turn) = infer_lineage(self.last_turn, tools.is_some(), op_id);
                self.last_turn = turn;
                let event = Event::InferCall {
                    run_id,
                    op_id,
                    parent_op_id,
                    model: model.clone(),
                    prompt: scene.prompt,
                    prompt_preview: scene.prompt_preview,
                    effect: Some(location.clone()),
                    timestamp,
                };
                (Call { op_id, parent_op_id }, Some(event))
            },
            Effect::Eval { location, command, argv, .. } => {
                let event = Event::EvalCall {
                    run_id,
                    op_id,
                    parent_op_id: None,
                    command: command.clone(),
                    argv: copy_opt_strings(argv),
                    cwd: scene.cwd,
                    env_policy: scene.env_policy,
                    timeout_ms: scene.timeout_ms,
                    effect: Some(location.clone()),
                    timestamp,
                };
                (Call { op_id, parent_op_id: None }, Some(event))
            },
            Effect::Retrieve { location, query, kind, max_bytes, .. } => {
                let kind = match kind {
                    Some(k) => Some(k.as_str().to_owned()),
                    None => None,
                };
                let event = Event::RetrieveCall {
                    run_id,
                    op_id,
                    parent_op_id: None,
                    query: query.clone(),
                    kind,
                    max_bytes: *max_bytes,
                    effect: Some(location.clone()),
                    timestamp,
                };
                (Call { op_id, parent_op_id: None }, Some(event))
            },
            Effect::Store { location, sink, op, id, item, content_hash, .. } => {
                let event = Event::StoreCall {
                    run_id,
                    op_id,
                    parent_op_id: None,
                    sink: sink.clone(),
                    store_op: op.name().to_owned(),
                    store_id: copy_opt(id),
                    item_preview: preview(item.to_text().as_str(), 256),
                    content_hash: content_hash.clone(),
                    effect: Some(location.clone()),
                    timestamp,
                };
                (Call { op_id, parent_op_id: None }, Some(event))
            },
            Effect::Tool { location, name, arguments, .. } => {
                let event = Event::ToolCall {
                    run_id,
                    op_id,
                    parent_op_id: None,
                    name: name.clone(),
                    arguments: arguments.clone(),
                    effect: Some(location.clone()),
                    timestamp,
                };
                (Call { op_id, parent_op_id: None }, Some(event))
            },
            Effect::Emit { .. } => (Call { op_id, parent_op_id: None }, None),
        }
    }

    /// The event that is recorded after an effect has ended.
    pub fn outcome_event(
        &self,
        e: &Effect,
        call: Call,
        result: &Result<Answer, String>,
        closing: Closing,
    ) -> (r: Option<Event>)
        ensures
            opt_event(r) == outcome_record(self@, e@, call, answer_of(*result), closing@),
    {
        let run_id = self.run_id.clone();
        let op_id = call.op_id;
        let parent_op_id = call.parent_op_id;
        let duration_ms = closing.elapsed_ms;
        let timestamp = closing.timestamp;
        match (e, result) {
            (Effect::Infer { .. }, Ok(Answer::Response(x))) => Some(
                Event::InferResult {
                    run_id,
                    op_id,
                    parent_op_id,
                    response: Some(x.clone()),
                    response_preview: closing.response_preview,
                    input_tokens: x.input_tokens,
                    output_tokens: x.output_tokens,
                    total_tokens: x.total_tokens,
                    cached_input_tokens: x.cached_input_tokens,
                    cost_micro_usd: x.cost_micro_usd,
                    pricing: x.pricing,
                    duration_ms,
                    timestamp,
                },
            ),
            (Effect::Infer { .. }, Err(error)) => Some(
                Event::InferError {
                    run_id,
                    op_id,
                    parent_op_id,
                    error: error.clone(),
                    duration_ms,
                    timestamp,
                },
            ),
            (Effect::Eval { command, .. }, Ok(Answer::Value(result))) => Some(
                Event::EvalResult {
                    run_id,
                    op_id,
                    parent_op_id,
                    command: command.clone(),
                    result: result.clone(),
                    duration_ms: number_at(result, "duration_ms"),
                    truncated_stdout: is_set(result, "stdout_truncated"),
                    truncated_stderr: is_set(result, "stderr_truncated"),
                    timestamp,
                },
            ),
            (Effect::Eval { command, .. }, Err(error)) => Some(
                Event::EvalError {
                    run_id,
                    op_id,
                    parent_op_id,
                    command: command.clone(),
                    error: error.clone(),
                    duration_ms,
                    timestamp,
                },
            ),
            (Effect::Retrieve { .. }, Ok(Answer::Value(results))) => {
                let shown = results.to_text();
                Some(
                    Event::RetrieveResult {
                        run_id,
                        op_id,
                        parent_op_id,
                        results: results.clone(),
                        result_preview: preview(shown.as_str(), 512),
                        source_count: items_in(results),
                        bytes: bytes_of(shown.as_str()),
                        duration_ms,
                        timestamp,
                    },
                )
            },
            (Effect::Retrieve { .. }, Err(error)) => Some(
                Event::RetrieveError {
                    run_id,
                    op_id,
                    parent_op_id,
                    error: error.clone(),
                    duration_ms,
                    timestamp,
                },
            ),
            (Effect::Store { sink, .. }, Ok(Answer::Id(id))) => Some(
                Event::StoreResult {
                    run_id,
                    op_id,
                    parent_op_id,
                    sink: sink.clone(),
                    sink_id: id.clone(),
                    duration_ms,
                    timestamp,
                },
            ),
            (Effect::Store { sink, .. }, Err(error)) => Some(
                Event::StoreError {
                    run_id,
                    op_id,
                    parent_op_id,
                    sink: sink.clone(),
                    error: error.clone(),
                    duration_ms,
                    timestamp,
                },
            ),
            (Effect::Tool { name, .. }, Ok(Answer::Value(result))) => Some(
                Event::ToolResult {
                    run_id,
                    op_id,
                    parent_op_id,
                    name: name.clone(),
                    result: result.clone(),
                    result_preview: preview(result.to_text().as_str(), 512),
                    duration_ms,
                    timestamp,
                },
            ),
            (Effect::Tool { name, .. }, Err(error)) => Some(
                Event::ToolError {
                    run_id,
                    op_id,
                    parent_op_id,
                    name: name.clone(),
                    error: error.clone(),
                    duration_ms,
                    timestamp,
                },
            ),
            _ => None,
        }
    }

    /// Closes the call of an effect.
    pub fn close_call(&mut self, e: &Effect, result: Result<Answer, String>) -> (r: Result<
        (),
        RunError,
    >)
        requires
            old(self).machine.pc < usize::MAX,
        ensures
            match (r, closed(old(self)@, e@, answer_of(result))) {
                (Ok(_), Ok(d)) => final(self)@ == d,
                (Err(a), Err(b)) => a@ == b && final(self)@ == old(self)@,
                _ => false,
            },
    {
        let out = match e.out() {
            Some(out) => out,
            None => {
                return Ok(());
            },
        };
        let value = match result {
            Ok(a) => Ok(a.to_json()),
            Err(x) => Err(x),
        };
        match self.machine.settle(out, e.mode(), value) {
            Ok(_) => {
                self.executed = count(self.executed);
                Ok(())
            },
            Err(x) => Err(x),
        }
    }
}

impl IrReplayTrace {
    /// What the recording says came of an effect.
    pub fn answer(&self, e: &Effect) -> (r: Result<Answer, String>)
        ensures
            answer_of(r) == recorded_answer(e@, self@),
    {
        match e {
            Effect::Infer { location, model, .. } => match self.infer_result(
                location,
                model.as_str(),
            ) {
                Ok(x) => Ok(Answer::Response(x)),
                Err(x) => Err(x.message()),
            },
            Effect::Eval { location, command, argv, .. } => match self.eval_result(
                location,
                command.as_str(),
                argv,
            ) {
                Ok(x) => Ok(Answer::Value(x)),
                Err(x) => Err(x.message()),
            },
            Effect::Retrieve { location, query, kind, max_bytes, .. } => {
                let kind = match kind {
                    Some(k) => Some(k.as_str().to_owned()),
                    None => None,
                };
                let key = IrRetrieveCall { query: query.clone(), kind, max_bytes: *max_bytes };
                match self.retrieve_result(location, &key) {
                    Ok(x) => Ok(Answer::Value(x)),
                    Err(x) => Err(x.message()),
                }
            },
            Effect::Store { location, sink, op, id, content_hash, .. } => {
                let key = IrStoreCall {
                    sink: sink.clone(),
                    op: op.name().to_owned(),
                    id: copy_opt(id),
                    content_hash: content_hash.clone(),
                };
                match self.store_result(location, &key) {
                    Ok(x) => Ok(Answer::Id(x)),
                    Err(x) => Err(x.message()),
                }
            },
            Effect::Tool { location, name, arguments, .. } => match self.tool_result(
                location,
                name.as_str(),
                arguments,
            ) {
                Ok(x) => Ok(Answer::Value(x)),
                Err(x) => Err(x.message()),
            },
            Effect::Emit { event } => Ok(Answer::Value(event.clone())),
        }
    }
}

} // verus!
