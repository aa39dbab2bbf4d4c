//! Runs of a machine: how effects are settled, how a recording stands in for
//! them, and where a run stops.
use crate::approval;
use crate::approval::{
    encode_opt_text, replay_gate, ApprovalKind, ApprovalRequest, ApprovalRequestV, GateEvent,
    GateEventV, GateOutcome, GateOutcomeV,
};
use crate::codec;
use crate::codec::encode_response;
use crate::effect;
use crate::effect::EffectSite;
use crate::ir;
use crate::ir::{BlockId, EffectErrorMode, StoreOp};
use crate::ir_flow;
use crate::ir_flow::validate_program;
use crate::ir_hash;
use crate::ir_hash::{encode_texts, program_hash, record2};
use crate::json;
use crate::json::{copy_fields, get_field, put_field, Fields, Json, JsonV};
use crate::machine;
use crate::machine::{Effect, EffectV, Machine, MachineV, RunError, RunErrorV, Step, StepV};
use crate::op;
use crate::replay;
use crate::replay::{
    IrReplayTrace, IrReplayTraceV, IrRetrieveCall, IrRetrieveCallV, IrStoreCall, IrStoreCallV,
};
use crate::text;
use crate::text::preview;
use vstd::prelude::*;

verus! {

/// The value that a failed effect results in where errors are bound.
pub open spec fn error_value(error: Seq<char>) -> JsonV {
    JsonV::Object(seq![("error"@, JsonV::Str(error)), ("ok"@, JsonV::Bool(false))])
}

/// The value that a failed effect results in where errors are bound.
pub fn effect_error_value(error: &str) -> (r: Json)
    ensures
        r@ == error_value(error@),
{
    record2("error", Json::text(error), "ok", Json::Bool(false))
}

/// The machine after an effect ended: the result is bound, a failure is bound
/// as a value or ends the run, as the instruction says.
pub open spec fn settled(
    m: MachineV,
    out: Seq<char>,
    on_error: EffectErrorMode,
    result: Result<JsonV, Seq<char>>,
) -> Result<MachineV, RunErrorV> {
    match result {
        Ok(v) => Ok(machine::went_on(m, out, v)),
        Err(e) => match on_error {
            EffectErrorMode::Bind => Ok(machine::went_on(m, out, error_value(e))),
            EffectErrorMode::Abort => Err(RunErrorV::Effect(e)),
        },
    }
}

/// The model of the result of an effect.
pub open spec fn result_of(r: Result<Json, String>) -> Result<JsonV, Seq<char>> {
    match r {
        Ok(v) => Ok(v@),
        Err(e) => Err(e@),
    }
}

impl Machine {
    /// Binds the value of the instruction that the machine stands at.
    pub fn bind_result(&mut self, out: String, v: Json)
        requires
            old(self).pc < usize::MAX,
        ensures
            final(self)@ == machine::went_on(old(self)@, out@, v@),
    {
        put_field(&mut self.env, out, v);
        self.pc = self.pc + 1;
    }

    /// Settles the effect that the machine stands before.
    pub fn settle(
        &mut self,
        out: String,
        on_error: EffectErrorMode,
        result: Result<Json, String>,
    ) -> (r:
        Result<(), RunError>)
        requires
            old(self).pc < usize::MAX,
        ensures
            match (r, settled(old(self)@, out@, on_error, result_of(result))) {
                (Ok(_), Ok(m)) => final(self)@ == m,
                (Err(e), Err(x)) => e@ == x && final(self)@ == old(self)@,
                _ => false,
            },
    {
        match result {
            Ok(v) => {
                self.bind_result(out, v);
                Ok(())
            },
            Err(e) => match on_error {
                EffectErrorMode::Bind => {
                    let v = effect_error_value(e.as_str());
                    self.bind_result(out, v);
                    Ok(())
                },
                EffectErrorMode::Abort => Err(RunError::Effect(e)),
            },
        }
    }
}

/// What is asked for before an evaluation.
pub open spec fn eval_request(command: Seq<char>, argv: Option<Seq<Seq<char>>>) -> JsonV {
    JsonV::Object(
        seq![("argv"@, ir_hash::opt_texts_json(argv)), ("command"@, JsonV::Str(command))],
    )
}

/// What is asked for before an evaluation.
pub fn eval_approval_request(command: &str, argv: &Option<Vec<String>>) -> (r: Json)
    ensures
        r@ == eval_request(command@, ir::opt_texts(*argv)),
{
    let list = match argv {
        Some(l) => encode_texts(l),
        None => Json::Null,
    };
    record2("argv", list, "command", Json::text(command))
}

/// What is asked for before a store: where it goes, and a glimpse of what.
pub open spec fn store_request(
    sink: Seq<char>,
    op: StoreOp,
    id: Option<Seq<char>>,
    item: JsonV,
    content_hash: Seq<char>,
) -> JsonV {
    JsonV::Object(
        seq![
            ("content_hash"@, JsonV::Str(content_hash)),
            ("id"@, approval::opt_text_json(id)),
            ("item_preview"@, JsonV::Str(text::prefix(json::json_text(item), 256))),
            ("op"@, JsonV::Str(op.text())),
            ("sink"@, JsonV::Str(sink)),
        ],
    )
}

/// What is asked for before a store.
pub fn store_approval_request(
    sink: &str,
    op: StoreOp,
    id: &Option<String>,
    item: &Json,
    content_hash: &str,
) -> (r: Json)
    ensures
        r@ == store_request(sink@, op, op::opt_text(*id), item@, content_hash@),
{
    broadcast use json::group_json;

    ir_hash::record5(
        "content_hash",
        Json::text(content_hash),
        "id",
        encode_opt_text(id),
        "item_preview",
        Json::Str(preview(item.to_text().as_str(), 256)),
        "op",
        Json::text(op.name()),
        "sink",
        Json::text(sink),
    )
}

/// How a store is carried out.
#[derive(Debug)]
pub enum StorePlan {
    Create,
    Update(String),
    Delete(String),
}

/// The model of a store plan.
pub enum StorePlanV {
    Create,
    Update(Seq<char>),
    Delete(Seq<char>),
}

impl StorePlan {
    pub open spec fn view(&self) -> StorePlanV {
        match self {
            StorePlan::Create => StorePlanV::Create,
            StorePlan::Update(id) => StorePlanV::Update(id@),
            StorePlan::Delete(id) => StorePlanV::Delete(id@),
        }
    }
}

/// How a store is carried out: an update and a delete name their item.
pub open spec fn planned(op: StoreOp, id: Option<Seq<char>>) -> Result<StorePlanV, Seq<char>> {
    match (op, id) {
        (StoreOp::Create, _) => Ok(StorePlanV::Create),
        (StoreOp::Update, Some(id)) => Ok(StorePlanV::Update(id)),
        (StoreOp::Delete, Some(id)) => Ok(StorePlanV::Delete(id)),
        (StoreOp::Update, None) => Err("Store update requires an id"@),
        (StoreOp::Delete, None) => Err("Store delete requires an id"@),
    }
}

/// How a store is carried out.
pub fn plan_store(op: StoreOp, id: &Option<String>) -> (r: Result<StorePlan, String>)
    ensures
        match (r, planned(op, op::opt_text(*id))) {
            (Ok(a), Ok(b)) => a@ == b,
            (Err(a), Err(b)) => a@ == b,
            _ => false,
        },
{
    match (op, id) {
        (StoreOp::Create, _) => Ok(StorePlan::Create),
        (StoreOp::Update, Some(id)) => Ok(StorePlan::Update(id.clone())),
        (StoreOp::Delete, Some(id)) => Ok(StorePlan::Delete(id.clone())),
        (StoreOp::Update, None) => Err("Store update requires an id".to_owned()),
        (StoreOp::Delete, None) => Err("Store delete requires an id".to_owned()),
    }
}

/// The parent of an inference and the turn that later children belong to: an
/// inference with tools of its own is a child of the turn before it, any
/// other begins a turn.
pub open spec fn lineage(last_turn: Option<u64>, narrowed: bool, op_id: u64) -> (
    Option<u64>,
    Option<u64>,
) {
    if narrowed {
        (last_turn, last_turn)
    } else {
        (None, Some(op_id))
    }
}

/// The parent of an inference, and the turn that later children belong to.
pub fn infer_lineage(last_turn: Option<u64>, narrowed: bool, op_id: u64) -> (r: (
    Option<u64>,
    Option<u64>,
))
    ensures
        r == lineage(last_turn, narrowed, op_id),
{
    if narrowed {
        (last_turn, last_turn)
    } else {
        (None, Some(op_id))
    }
}

/// Whether a failed inference is tried again on a smaller prompt: only live,
/// only where collecting on overflow is on, only for an overflow, and at most
/// so many times.
pub fn collects_again(
    live: bool,
    active: bool,
    overflow: bool,
    cycles: usize,
    max_cycles: usize,
) -> (r:
    bool)
    ensures
        r == (live && active && overflow && cycles < max_cycles),
{
    live && active && overflow && cycles < max_cycles
}

/// The instruction that a machine stands at.
pub open spec fn site_of(m: MachineV) -> EffectSite {
    EffectSite { block: BlockId(m.block), instruction_index: m.pc as usize }
}

/// One step of a replay.
pub enum ReplayStepV {
    /// The machine moved on; what gates recorded on the way.
    Moved(MachineV, Seq<GateEventV>),
    /// The program emitted an event.
    Emitted(MachineV, JsonV),
    Complete(JsonV),
    Paused(MachineV, Seq<GateEventV>, ApprovalRequestV),
}

/// The machine that a settled effect leaves, as a step.
pub open spec fn moved(r: Result<MachineV, RunErrorV>, events: Seq<GateEventV>) -> Result<
    ReplayStepV,
    RunErrorV,
> {
    match r {
        Ok(m) => Ok(ReplayStepV::Moved(m, events)),
        Err(e) => Err(e),
    }
}

/// A recorded answer, as the result of an effect.
pub open spec fn as_result<T>(r: Result<T, replay::ReplayErrorV>, f: spec_fn(T) -> JsonV) -> Result<
    JsonV,
    Seq<char>,
> {
    match r {
        Ok(x) => Ok(f(x)),
        Err(e) => Err(replay::replay_error_text(e)),
    }
}

/// How a gated effect goes on under replay, if `result` is what the recording
/// answers to it.
pub open spec fn gated_step(
    m: MachineV,
    gate: Result<(Seq<GateEventV>, GateOutcomeV), replay::ReplayErrorV>,
    out: Seq<char>,
    on_error: EffectErrorMode,
    result: Result<JsonV, Seq<char>>,
) -> Result<ReplayStepV, RunErrorV> {
    match gate {
        Err(e) => Err(RunErrorV::Replay(e)),
        Ok((events, GateOutcomeV::Proceed)) => moved(settled(m, out, on_error, result), events),
        Ok((events, GateOutcomeV::Deny(v))) => Ok(
            ReplayStepV::Moved(machine::went_on(m, out, v), events),
        ),
        Ok((events, GateOutcomeV::Pause(pending))) => Ok(
            ReplayStepV::Paused(machine::rewound(m, site_of(m)), events, pending),
        ),
    }
}

/// How an effect goes on under replay: the recording answers it and nothing
/// is carried out.
pub open spec fn answered_step(m: MachineV, e: EffectV, t: IrReplayTraceV) -> Result<
    ReplayStepV,
    RunErrorV,
> {
    match e {
        EffectV::Emit { event } => Ok(
            ReplayStepV::Emitted(MachineV { pc: m.pc + 1, ..m }, event),
        ),
        EffectV::Infer { out, location, model, on_error, .. } => moved(
            settled(
                m,
                out,
                on_error,
                as_result(
                    replay::infer_answer(t, location, model),
                    |x: op::ResponseV| codec::response_json(x),
                ),
            ),
            Seq::empty(),
        ),
        EffectV::Eval { out, location, command, argv, gated } => gated_step(
            m,
            approval::replayed(
                t,
                location,
                ApprovalKind::Eval,
                eval_request(command, argv),
                gated,
            ),
            out,
            EffectErrorMode::Abort,
            as_result(replay::eval_answer(t, location, command, argv), |x: JsonV| x),
        ),
        EffectV::Retrieve { out, location, query, kind, max_bytes, on_error } => moved(
            settled(
                m,
                out,
                on_error,
                as_result(
                    replay::retrieve_answer(
                        t,
                        location,
                        IrRetrieveCallV { query, kind: kind_text(kind), max_bytes },
                    ),
                    |x: JsonV| x,
                ),
            ),
            Seq::empty(),
        ),
        EffectV::Store { out, location, sink, op, id, item, content_hash, on_error } => gated_step(
            m,
            approval::replayed(
                t,
                location,
                ApprovalKind::Store,
                store_request(sink, op, id, item, content_hash),
                false,
            ),
            out,
            on_error,
            as_result(
                replay::store_answer(
                    t,
                    location,
                    IrStoreCallV { sink, op: op.text(), id, content_hash },
                ),
                |x: Seq<char>| JsonV::Str(x),
            ),
        ),
        EffectV::Tool { out, location, name, arguments, on_error } => moved(
            settled(
                m,
                out,
                on_error,
                as_result(replay::tool_answer(t, location, name, arguments), |x: JsonV| x),
            ),
            Seq::empty(),
        ),
    }
}

/// The name of an optional source kind.
pub open spec fn kind_text(kind: Option<ir::SourceKind>) -> Option<Seq<char>> {
    match kind {
        Some(k) => Some(k.text()),
        None => None,
    }
}

/// One step of a replay.
pub open spec fn replay_step(m: MachineV, hash: Seq<char>, t: IrReplayTraceV) -> Result<
    ReplayStepV,
    RunErrorV,
> {
    match machine::stepped(m, hash) {
        Err(e) => Err(e),
        Ok(StepV::Moved(x)) => Ok(ReplayStepV::Moved(x, Seq::empty())),
        Ok(StepV::Complete(v)) => Ok(ReplayStepV::Complete(v)),
        Ok(StepV::Effect(x, e)) => answered_step(x, e, t),
    }
}

/// One step of a replay.
#[derive(Debug)]
pub enum ReplayStep {
    Moved { events: Vec<GateEvent> },
    Emitted(Json),
    Complete(Json),
    Paused { events: Vec<GateEvent>, pending: ApprovalRequest },
}

/// Whether a replay step and the machine after it are as the model says.  A
/// machine that has returned stands where it stood.
pub open spec fn replays_to(
    r: Result<ReplayStep, RunError>,
    before: MachineV,
    after: MachineV,
    goal: Result<ReplayStepV, RunErrorV>,
) -> bool {
    match (r, goal) {
        (Ok(ReplayStep::Moved { events }), Ok(ReplayStepV::Moved(m, x))) => after == m
            && approval::gate_events(events@) == x,
        (Ok(ReplayStep::Emitted(v)), Ok(ReplayStepV::Emitted(m, x))) => after == m && v@ == x,
        (Ok(ReplayStep::Complete(v)), Ok(ReplayStepV::Complete(x))) => after == before && v@ == x,
        (Ok(ReplayStep::Paused { events, pending }), Ok(ReplayStepV::Paused(m, x, p))) => after == m
            && approval::gate_events(events@) == x && pending@ == p,
        (Err(e), Err(x)) => e@ == x,
        _ => false,
    }
}

fn no_events() -> (r: Vec<GateEvent>)
    ensures
        approval::gate_events(r@) == Seq::<GateEventV>::empty(),
{
    let list: Vec<GateEvent> = Vec::new();
    assert(approval::gate_events(list@) =~= Seq::empty());
    list
}

impl Machine {
    /// Settles an effect that no gate held up.
    fn settle_free(
        &mut self,
        out: String,
        on_error: EffectErrorMode,
        result: Result<Json, String>,
    ) -> (r:
        Result<ReplayStep, RunError>)
        requires
            old(self).pc < usize::MAX,
        ensures
            replays_to(
                r,
                old(self)@,
                final(self)@,
                moved(settled(old(self)@, out@, on_error, result_of(result)), Seq::empty()),
            ),
            final(self)@.program == old(self)@.program,
            r is Err ==> final(self)@ == old(self)@,
    {
        match self.settle(out, on_error, result) {
            Ok(_) => Ok(ReplayStep::Moved { events: no_events() }),
            Err(e) => Err(e),
        }
    }

    /// Settles an effect behind a gate.
    fn settle_gated(
        &mut self,
        gate: Result<(Vec<GateEvent>, GateOutcome), replay::ReplayError>,
        out: String,
        on_error: EffectErrorMode,
        result: Result<Json, String>,
        Ghost(goal): Ghost<Result<(Seq<GateEventV>, GateOutcomeV), replay::ReplayErrorV>>,
    ) -> (r: Result<ReplayStep, RunError>)
        requires
            old(self).pc < usize::MAX,
            match (gate, goal) {
                (Ok(a), Ok(b)) => approval::gate_events(a.0@) == b.0 && a.1@ == b.1,
                (Err(a), Err(b)) => a@ == b,
                _ => false,
            },
        ensures
            replays_to(
                r,
                old(self)@,
                final(self)@,
                gated_step(old(self)@, goal, out@, on_error, result_of(result)),
            ),
            final(self)@.program == old(self)@.program,
            r is Err ==> final(self)@ == old(self)@,
    {
        match gate {
            Err(e) => Err(RunError::Replay(e)),
            Ok((events, GateOutcome::Proceed)) => match self.settle(out, on_error, result) {
                Ok(_) => Ok(ReplayStep::Moved { events }),
                Err(e) => Err(e),
            },
            Ok((events, GateOutcome::Deny(v))) => {
                self.bind_result(out, v);
                Ok(ReplayStep::Moved { events })
            },
            Ok((events, GateOutcome::Pause(pending))) => {
                let site = EffectSite { block: self.block, instruction_index: self.pc };
                self.rewind_visit(site);
                Ok(ReplayStep::Paused { events, pending })
            },
        }
    }

    /// Lets a recording answer an effect that the machine stands before.
    fn answer(&mut self, e: Effect, recording: &IrReplayTrace) -> (r: Result<ReplayStep, RunError>)
        requires
            old(self).pc < usize::MAX,
        ensures
            replays_to(r, old(self)@, final(self)@, answered_step(old(self)@, e@, recording@)),
            final(self)@.program == old(self)@.program,
            r is Err ==> final(self)@ == old(self)@,
    {
        match e {
            Effect::Emit { event } => {
                self.pc = self.pc + 1;
                Ok(ReplayStep::Emitted(event))
            },
            Effect::Infer { out, location, model, on_error, .. } => {
                let result = match recording.infer_result(&location, model.as_str()) {
                    Ok(x) => Ok(encode_response(&x)),
                    Err(x) => Err(x.message()),
                };
                self.settle_free(out, on_error, result)
            },
            Effect::Eval { out, location, command, argv, gated } => {
                let request = eval_approval_request(command.as_str(), &argv);
                let gate = replay_gate(recording, &location, ApprovalKind::Eval, request, gated);
                let result = match recording.eval_result(&location, command.as_str(), &argv) {
                    Ok(x) => Ok(x),
                    Err(x) => Err(x.message()),
                };
                let ghost goal = approval::replayed(
                    recording@,
                    location@,
                    ApprovalKind::Eval,
                    request@,
                    gated,
                );
                self.settle_gated(gate, out, EffectErrorMode::Abort, result, Ghost(goal))
            },
            Effect::Retrieve { out, location, query, kind, max_bytes, on_error } => {
                let named = match kind {
                    Some(k) => Some(k.as_str().to_owned()),
                    None => None,
                };
                let key = IrRetrieveCall { query, kind: named, max_bytes };
                let result = match recording.retrieve_result(&location, &key) {
                    Ok(x) => Ok(x),
                    Err(x) => Err(x.message()),
                };
                self.settle_free(out, on_error, result)
            },
            Effect::Store { out, location, sink, op, id, item, content_hash, on_error } => {
                let request = store_approval_request(
                    sink.as_str(),
                    op,
                    &id,
                    &item,
                    content_hash.as_str(),
                );
                let gate = replay_gate(recording, &location, ApprovalKind::Store, request, false);
                let key = IrStoreCall { sink, op: op.name().to_owned(), id, content_hash };
                let result = match recording.store_result(&location, &key) {
                    Ok(x) => Ok(Json::Str(x)),
                    Err(x) => Err(x.message()),
                };
                let ghost goal = approval::replayed(
                    recording@,
                    location@,
                    ApprovalKind::Store,
                    request@,
                    false,
                );
                self.settle_gated(gate, out, on_error, result, Ghost(goal))
            },
            Effect::Tool { out, location, name, arguments, on_error } => {
                let result = match recording.tool_result(&location, name.as_str(), &arguments) {
                    Ok(x) => Ok(x),
                    Err(x) => Err(x.message()),
                };
                self.settle_free(out, on_error, result)
            },
        }
    }

    /// Takes one step of a replay.
    pub fn replay_step(&mut self, hash: &str, recording: &IrReplayTrace) -> (r: Result<
        ReplayStep,
        RunError,
    >)
        ensures
            replays_to(r, old(self)@, final(self)@, replay_step(old(self)@, hash@, recording@)),
            final(self)@.program == old(self)@.program,
            r is Err ==> final(self)@ == machine::failed(old(self)@),
    {
        proof {
            if machine::stepped(self@, hash@) matches Ok(StepV::Effect(_, _)) {
                effects_stand_inside_blocks(self@, hash@);
            }
        }
        match self.step(hash) {
            Err(e) => Err(e),
            Ok(Step::Moved) => Ok(ReplayStep::Moved { events: no_events() }),
            Ok(Step::Complete(v)) => Ok(ReplayStep::Complete(v)),
            Ok(Step::Effect(e)) => self.answer(e, recording),
        }
    }
}

/// Values by key, as a run keeps them.
#[derive(Debug)]
pub struct InMemoryStore {
    values: Vec<(String, Json)>,
}

impl InMemoryStore {
    pub closed spec fn view(&self) -> Fields {
        json::fields(self.values@)
    }

    pub fn new() -> (r: InMemoryStore)
        ensures
            r@ == Seq::<(Seq<char>, JsonV)>::empty(),
    {
        let values: Vec<(String, Json)> = Vec::new();
        assert(json::fields(values@) =~= Seq::empty());
        InMemoryStore { values }
    }

    /// The value under a key, null where there is none.
    pub fn get_local(&self, key: &str) -> (r: Json)
        ensures
            r@ == match json::lookup(self@, key@) {
                Some(v) => v,
                None => JsonV::Null,
            },
    {
        match get_field(&self.values, key) {
            Some(v) => v.clone(),
            None => Json::Null,
        }
    }

    /// Puts a value under a key.
    pub fn put_local(&mut self, key: String, value: Json)
        ensures
            final(self)@ == json::put(old(self)@, key@, value@),
    {
        put_field(&mut self.values, key, value);
    }
}

impl Clone for InMemoryStore {
    fn clone(&self) -> (r: Self)
        ensures
            r@ == self@,
    {
        InMemoryStore { values: copy_fields(&self.values) }
    }
}

/// What stands behind a run.  Without a snapshot a run cannot stop midway.
pub trait IrStore {
    fn in_memory_snapshot(&self) -> (r: Option<InMemoryStore>)
        default_ensures
            r is None,
    {
        None
    }
}

impl IrStore for InMemoryStore {
    fn in_memory_snapshot(&self) -> (r: Option<InMemoryStore>)
        ensures
            r is Some,
            r->0@ == self@,
    {
        Some(self.clone())
    }
}

/// A run that stopped midway.
#[derive(Debug)]
pub struct IrCheckpoint {
    pub machine: Machine,
    pub store: InMemoryStore,
}

/// The model of a run that stopped midway.
pub struct CheckpointV {
    pub machine: MachineV,
    pub store: Fields,
}

impl IrCheckpoint {
    pub open spec fn view(&self) -> CheckpointV {
        CheckpointV { machine: self.machine@, store: self.store@ }
    }
}

/// How a run ends or stops.
#[derive(Debug)]
pub enum IrStepOutcome {
    Complete { value: Json, machine: Machine },
    Suspended { checkpoint: IrCheckpoint },
    /// A gated effect was reached that nobody has decided on.  It was not
    /// carried out.
    AwaitingApproval { checkpoint: IrCheckpoint, pending: ApprovalRequest },
}

/// The model of an outcome.
pub enum OutcomeV {
    Complete(JsonV, MachineV),
    Suspended(CheckpointV),
    AwaitingApproval(CheckpointV, ApprovalRequestV),
}

impl IrStepOutcome {
    pub open spec fn view(&self) -> OutcomeV {
        match self {
            IrStepOutcome::Complete { value, machine } => OutcomeV::Complete(value@, machine@),
            IrStepOutcome::Suspended { checkpoint } => OutcomeV::Suspended(checkpoint@),
            IrStepOutcome::AwaitingApproval { checkpoint, pending } => OutcomeV::AwaitingApproval(
                checkpoint@,
                pending@,
            ),
        }
    }
}

/// A replay of at most so many steps.  The values behind the run are kept as
/// they are.
pub open spec fn replayed_run(
    m: MachineV,
    store: Fields,
    hash: Seq<char>,
    t: IrReplayTraceV,
    limit: nat,
) -> Result<
    OutcomeV,
    RunErrorV,
>
    decreases limit,
{
    if limit == 0 {
        Ok(OutcomeV::Suspended(CheckpointV { machine: m, store }))
    } else {
        match replay_step(m, hash, t) {
            Err(e) => Err(e),
            Ok(ReplayStepV::Moved(x, _)) => replayed_run(x, store, hash, t, (limit - 1) as nat),
            Ok(ReplayStepV::Emitted(x, _)) => replayed_run(x, store, hash, t, (limit - 1) as nat),
            Ok(ReplayStepV::Complete(v)) => Ok(OutcomeV::Complete(v, m)),
            Ok(ReplayStepV::Paused(x, _, p)) => Ok(
                OutcomeV::AwaitingApproval(CheckpointV { machine: x, store }, p),
            ),
        }
    }
}

/// The replay of a program from the start of a run, if it is valid.
pub open spec fn replay_outcome(
    m: MachineV,
    store: Fields,
    t: IrReplayTraceV,
    limit: nat,
) -> Result<OutcomeV, RunErrorV> {
    replayed_run(m, store, ir_hash::program_digest(m.program), t, limit)
}

/// Replays a run for at most so many steps.  Nothing is carried out: every
/// effect is answered by the recording.
pub fn replay_run(
    machine: Machine,
    store: &InMemoryStore,
    recording: &IrReplayTrace,
    limit: usize,
) -> (r: Result<IrStepOutcome, RunError>)
    ensures
        !ir_flow::valid(machine@.program) ==> (r matches Err(RunError::Invalid(e))
            && ir_flow::is_wrong(machine@.program, e@)),
        ir_flow::valid(machine@.program) ==> match (
            r,
            replay_outcome(machine@, store@, recording@, limit as nat),
        ) {
            (Ok(a), Ok(b)) => a@ == b,
            (Err(a), Err(b)) => a@ == b,
            _ => false,
        },
{
    match validate_program(&machine.program) {
        Ok(_) => {},
        Err(e) => {
            return Err(RunError::Invalid(e));
        },
    }
    let hash = program_hash(&machine.program);
    let ghost start = machine@;
    let mut now = machine;
    let mut left: usize = limit;
    while left > 0
        invariant
            left <= limit,
            hash@ == ir_hash::program_digest(start.program),
            start == machine@,
            ir_flow::valid(start.program),
            replayed_run(start, store@, hash@, recording@, limit as nat) == replayed_run(
                now@,
                store@,
                hash@,
                recording@,
                left as nat,
            ),
        decreases left,
    {
        match now.replay_step(hash.as_str(), recording) {
            Err(e) => {
                return Err(e);
            },
            Ok(ReplayStep::Moved { .. }) => {},
            Ok(ReplayStep::Emitted(_)) => {},
            Ok(ReplayStep::Complete(value)) => {
                return Ok(IrStepOutcome::Complete { value, machine: now });
            },
            Ok(ReplayStep::Paused { pending, .. }) => {
                return Ok(
                    IrStepOutcome::AwaitingApproval {
                        checkpoint: IrCheckpoint { machine: now, store: store.clone() },
                        pending,
                    },
                );
            },
        }
        left -= 1;
    }
    Ok(IrStepOutcome::Suspended { checkpoint: IrCheckpoint { machine: now, store: store.clone() } })
}

/// The error of a run that cannot wait for a decision.
pub open spec fn awaiting_text(p: ApprovalRequestV) -> Seq<char> {
    "gated "@ + p.kind.text() + " effect "@ + p.effect.effect_id
        + " requires approval and no resolver is configured; failing closed without executing it (request: "@
        + json::json_text(p.request) + ")"@
}

/// The error of a run that cannot wait for a decision.
pub fn awaiting_approval_message(p: &ApprovalRequest) -> (r: String)
    ensures
        r@ == awaiting_text(p@),
{
    let mut out = "gated ".to_owned();
    out.append(p.kind.as_str());
    out.append(" effect ");
    out.append(p.effect.effect_id.as_str());
    out.append(
        " requires approval and no resolver is configured; failing closed without executing it (request: ",
    );
    out.append(p.request.to_text().as_str());
    out.append(")");
    out
}

/// An effect is asked for only by an instruction of the block at hand, and
/// the machine still stands at it.
pub proof fn effects_stand_inside_blocks(m: MachineV, hash: Seq<char>)
    requires
        machine::stepped(m, hash) matches Ok(StepV::Effect(_, _)),
    ensures
        machine::stepped(m, hash) matches Ok(StepV::Effect(x, _)) && x.pc == m.pc && x.program
            == m.program && x.block == m.block && x.env == m.env && x.path == m.path && x
            == machine::failed(m),
        ir::block_at(m.program.blocks, m.block) is Some,
        0 <= m.pc < ir::block_at(m.program.blocks, m.block)->0.instructions.len(),
{
    reveal(machine::stepped);
}

/// A wait is exact: a machine that stopped before an effect, with the visit
/// taken back, asks again for the same effect with the same identity.
pub proof fn paused_machine_asks_again(m: MachineV, hash: Seq<char>)
    requires
        machine::stepped(m, hash) matches Ok(StepV::Effect(_, _)),
        machine::visits_at(m, site_of(m)) < u64::MAX,
    ensures
        machine::stepped(m, hash) matches Ok(StepV::Effect(x, e)) && machine::stepped(
            machine::rewound(x, site_of(x)),
            hash,
        ) == Ok::<StepV, RunErrorV>(StepV::Effect(x, e)),
{
    reveal(machine::stepped);
    effects_stand_inside_blocks(m, hash);
    let x = (machine::stepped(m, hash)->Ok_0)->Effect_0;
    let site = site_of(m);
    let again = machine::rewound(x, site);
    assert(machine::visited(again, site).visits =~= x.visits);
}

/// Stopping does not matter: a replay that is stopped at a limit and resumed
/// from its checkpoint ends as one that ran through.
pub proof fn suspended_replay_resumes(
    m: MachineV,
    store: Fields,
    hash: Seq<char>,
    t: IrReplayTraceV,
    first: nat,
    then_more: nat,
)
    ensures
        replayed_run(m, store, hash, t, first + then_more) == match replayed_run(
            m,
            store,
            hash,
            t,
            first,
        ) {
            Ok(OutcomeV::Suspended(x)) => replayed_run(x.machine, x.store, hash, t, then_more),
            other => other,
        },
    decreases first,
{
    if first > 0 {
        match replay_step(m, hash, t) {
            Ok(ReplayStepV::Moved(x, _)) => {
                suspended_replay_resumes(x, store, hash, t, (first - 1) as nat, then_more);
                assert(((first - 1) as nat) + then_more == (first + then_more - 1) as nat);
            },
            Ok(ReplayStepV::Emitted(x, _)) => {
                suspended_replay_resumes(x, store, hash, t, (first - 1) as nat, then_more);
                assert(((first - 1) as nat) + then_more == (first + then_more - 1) as nat);
            },
            _ => {},
        }
    }
}

/// Where errors are bound, no failure of an effect ends a run, and the value
/// that takes its place says so.
pub proof fn bound_errors_do_not_abort(
    m: MachineV,
    out: Seq<char>,
    result: Result<JsonV, Seq<char>>,
)
    ensures
        settled(m, out, EffectErrorMode::Bind, result) matches Ok(x) && x.pc == m.pc + 1
            && json::lookup(x.env, out) == Some(
            match result {
                Ok(v) => v,
                Err(e) => error_value(e),
            },
        ),
{
    let v = match result {
        Ok(v) => v,
        Err(e) => error_value(e),
    };
    json::put_then_lookup(m.env, out, v);
}

} // verus!
