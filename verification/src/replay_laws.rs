//! What is recorded of a run is enough to run it again: a replay of the
//! recording takes the same steps and ends in the same way.
use crate::approval;
use crate::approval::{
    ApprovalDecision, ApprovalRequestV, ApprovalResolutionV, GateOutcomeV, GateStepV,
};
use crate::driver;
use crate::driver::{ActionV, AnswerV, Call, ClosingV, DriverV, SceneV};
use crate::effect::{EffectLocationV, EffectSite};
use crate::effect_laws;
use crate::interpreter;
use crate::interpreter::{CheckpointV, OutcomeV, ReplayStepV};
use crate::ir::EffectKind;
use crate::json;
use crate::json::{Fields, JsonV};
use crate::machine;
use crate::machine::{EffectV, MachineV, RunErrorV};
use crate::replay;
use crate::replay::{IndexV, IrReplayTraceV, ReplayErrorV};
use crate::run_laws;
use crate::trace::EventV;
use vstd::prelude::*;

verus! {

/// What a run meets: what comes of each effect, and what is decided at each
/// gate.
pub struct World {
    pub answer: spec_fn(EffectV) -> Result<AnswerV, Seq<char>>,
    /// The operation under which an effect is carried out.
    pub op: spec_fn(EffectV) -> u64,
    /// Whether the sink of a store asks for approval.
    pub guarded: spec_fn(EffectV) -> bool,
    /// The decision that was made on an effect before it was reached.
    pub resolution: spec_fn(EffectV) -> Option<ApprovalResolutionV>,
    /// The decision that is made when it is asked for.
    pub decision: spec_fn(ApprovalRequestV) -> Option<ApprovalDecision>,
    pub scene: spec_fn(EffectV) -> SceneV,
    pub closing: spec_fn(EffectV) -> ClosingV,
    /// The event that an emitted value encodes.
    pub emitted: spec_fn(JsonV) -> EventV,
    pub time: i128,
    /// The values that stand behind the run.
    pub store: Fields,
}

/// The location of an effect.
pub open spec fn location_of(e: EffectV) -> Option<EffectLocationV> {
    match e {
        EffectV::Infer { location, .. } => Some(location),
        EffectV::Eval { location, .. } => Some(location),
        EffectV::Retrieve { location, .. } => Some(location),
        EffectV::Store { location, .. } => Some(location),
        EffectV::Tool { location, .. } => Some(location),
        EffectV::Emit { .. } => None,
    }
}

/// The identity of an effect.
pub open spec fn id_of(e: EffectV) -> Seq<char> {
    location_of(e)->0.effect_id
}

/// Whether the location of an effect is of the effect's own kind.
pub open spec fn is_placed(e: EffectV) -> bool {
    match e {
        EffectV::Infer { location, .. } => location.kind == EffectKind::Infer,
        EffectV::Eval { location, .. } => location.kind == EffectKind::Eval,
        EffectV::Retrieve { location, .. } => location.kind == EffectKind::Retrieve,
        EffectV::Store { location, .. } => location.kind == EffectKind::Store,
        EffectV::Tool { location, .. } => location.kind == EffectKind::Tool,
        EffectV::Emit { .. } => false,
    }
}

/// What is recorded where an effect may be gated, and what comes of it.
pub open spec fn gate_met(d: DriverV, e: EffectV, w: World) -> (Seq<EventV>, GateOutcomeV) {
    match driver::approached(d, e, (w.guarded)(e), (w.resolution)(e)) {
        GateStepV::Open => (Seq::empty(), GateOutcomeV::Proceed),
        GateStepV::Settled { event, outcome } => (
            seq![driver::gate_record(d, event, w.time)],
            outcome,
        ),
        GateStepV::Ask { event, pending } => match approval::answered(
            pending,
            (w.decision)(pending),
        ) {
            (Some(x), outcome) => (
                seq![driver::gate_record(d, event, w.time), driver::gate_record(d, x, w.time)],
                outcome,
            ),
            (None, outcome) => (seq![driver::gate_record(d, event, w.time)], outcome),
        },
    }
}

/// The run after the call of an effect was opened.
pub open spec fn opened(d: DriverV, e: EffectV, w: World) -> DriverV {
    DriverV { last_turn: driver::call_of(d, e, (w.op)(e)).1, ..d }
}

/// What is recorded around an effect that is carried out.
pub open spec fn call_met(d: DriverV, e: EffectV, w: World) -> Seq<EventV> {
    let call = driver::call_of(d, e, (w.op)(e)).0;
    seq![
        driver::call_record(d, e, call, (w.scene)(e))->0,
        driver::outcome_record(opened(d, e, w), e, call, (w.answer)(e), (w.closing)(e))->0,
    ]
}

/// One step of a run in a world: what is recorded, and how the run goes on or
/// ends.
pub enum LiveStep {
    Go(Seq<EventV>, DriverV),
    Stop(Seq<EventV>, Result<OutcomeV, RunErrorV>),
}

/// What a step records.
pub open spec fn noted(s: LiveStep) -> Seq<EventV> {
    match s {
        LiveStep::Go(events, _) => events,
        LiveStep::Stop(events, _) => events,
    }
}

/// How a run goes on at an effect.
pub open spec fn effect_met(d: DriverV, e: EffectV, w: World) -> LiveStep {
    let (events, outcome) = gate_met(d, e, w);
    match outcome {
        GateOutcomeV::Deny(_) => LiveStep::Go(events, driver::passed(d, e, outcome)),
        GateOutcomeV::Pause(p) => LiveStep::Stop(
            events,
            Ok(
                OutcomeV::AwaitingApproval(
                    CheckpointV { machine: driver::passed(d, e, outcome).machine, store: w.store },
                    p,
                ),
            ),
        ),
        GateOutcomeV::Proceed => match driver::closed(opened(d, e, w), e, (w.answer)(e)) {
            Ok(x) => LiveStep::Go(events + call_met(d, e, w), x),
            Err(x) => LiveStep::Stop(events + call_met(d, e, w), Err(x)),
        },
    }
}

/// One step of a run in a world.
pub open spec fn live_step(d: DriverV, w: World) -> LiveStep {
    match driver::next_action(d) {
        Err(e) => LiveStep::Stop(Seq::empty(), Err(e)),
        Ok(ActionV::Suspend) => LiveStep::Stop(
            Seq::empty(),
            Ok(OutcomeV::Suspended(CheckpointV { machine: d.machine, store: w.store })),
        ),
        Ok(ActionV::Complete(v)) => LiveStep::Stop(
            Seq::empty(),
            Ok(OutcomeV::Complete(v, d.machine)),
        ),
        Ok(ActionV::Moved(x)) => LiveStep::Go(Seq::empty(), x),
        Ok(ActionV::Emit(x, v)) => LiveStep::Go(seq![(w.emitted)(v)], x),
        Ok(ActionV::Perform(x, e)) => effect_met(x, e, w),
    }
}

/// What a run of at most so many steps records.
pub open spec fn recording(d: DriverV, w: World, n: nat) -> Seq<EventV>
    decreases n,
{
    if n == 0 {
        Seq::empty()
    } else {
        match live_step(d, w) {
            LiveStep::Stop(events, _) => events,
            LiveStep::Go(events, x) => events + recording(x, w, (n - 1) as nat),
        }
    }
}

/// How a run of at most so many steps ends.
pub open spec fn ending(d: DriverV, w: World, n: nat) -> Result<OutcomeV, RunErrorV>
    decreases n,
{
    if n == 0 {
        Ok(OutcomeV::Suspended(CheckpointV { machine: d.machine, store: w.store }))
    } else {
        match live_step(d, w) {
            LiveStep::Stop(_, r) => r,
            LiveStep::Go(_, x) => ending(x, w, (n - 1) as nat),
        }
    }
}

/// The identities of the effects that a run of at most so many steps meets.
pub open spec fn met(d: DriverV, w: World, n: nat) -> Set<Seq<char>>
    decreases n,
{
    if n == 0 {
        Set::empty()
    } else {
        let later = match live_step(d, w) {
            LiveStep::Stop(_, _) => Set::empty(),
            LiveStep::Go(_, x) => met(x, w, (n - 1) as nat),
        };
        match driver::next_action(d) {
            Ok(ActionV::Perform(_, e)) => later.insert(id_of(e)),
            _ => later,
        }
    }
}

/// Whether an event says nothing about effects.
pub open spec fn is_aside(e: EventV) -> bool {
    &&& replay::call_op(e) is None
    &&& replay::outcome_op(e) is None
    &&& !(e is ApprovalRequested)
    &&& !(e is ApprovalResolved)
    &&& (e matches EventV::Custom { name, .. } ==> name != "output_contract"@)
}

/// Whether a run goes smoothly for at most so many steps: every effect that
/// is carried out gives an answer of its own form, no two effects have one
/// identity, and the program emits nothing that speaks of effects.
pub open spec fn smooth(d: DriverV, w: World, n: nat) -> bool
    decreases n,
{
    n == 0 || {
        &&& match driver::next_action(d) {
            Ok(ActionV::Emit(_, v)) => is_aside((w.emitted)(v)),
            Ok(ActionV::Perform(x, e)) => gate_met(x, e, w).1 is Proceed ==> (w.answer)(e) is Ok
                && driver::fits(e, (w.answer)(e)),
            _ => true,
        }
        &&& match live_step(d, w) {
            LiveStep::Go(_, x) => {
                &&& smooth(x, w, (n - 1) as nat)
                &&& driver::next_action(d) matches Ok(ActionV::Perform(_, e)) ==> !met(
                    x,
                    w,
                    (n - 1) as nat,
                ).contains(id_of(e))
            },
            LiveStep::Stop(_, _) => true,
        }
    }
}

/// The entry of a table.
pub open spec fn entry<V>(m: Map<Seq<char>, V>, id: Seq<char>) -> Option<V> {
    if m.dom().contains(id) {
        Some(m[id])
    } else {
        None
    }
}

/// Whether two recordings say the same about an effect.
pub open spec fn agree(a: IrReplayTraceV, b: IrReplayTraceV, id: Seq<char>) -> bool {
    &&& entry(a.infer_calls, id) == entry(b.infer_calls, id)
    &&& entry(a.infer_results, id) == entry(b.infer_results, id)
    &&& entry(a.infer_errors, id) == entry(b.infer_errors, id)
    &&& entry(a.eval_calls, id) == entry(b.eval_calls, id)
    &&& entry(a.eval_results, id) == entry(b.eval_results, id)
    &&& entry(a.eval_errors, id) == entry(b.eval_errors, id)
    &&& entry(a.retrieve_calls, id) == entry(b.retrieve_calls, id)
    &&& entry(a.retrieve_results, id) == entry(b.retrieve_results, id)
    &&& entry(a.retrieve_errors, id) == entry(b.retrieve_errors, id)
    &&& entry(a.store_calls, id) == entry(b.store_calls, id)
    &&& entry(a.store_results, id) == entry(b.store_results, id)
    &&& entry(a.store_errors, id) == entry(b.store_errors, id)
    &&& entry(a.tool_calls, id) == entry(b.tool_calls, id)
    &&& entry(a.tool_results, id) == entry(b.tool_results, id)
    &&& entry(a.tool_errors, id) == entry(b.tool_errors, id)
    &&& entry(a.approval_requests, id) == entry(b.approval_requests, id)
    &&& entry(a.approval_resolutions, id) == entry(b.approval_resolutions, id)
}

/// Recordings that say the same about an effect answer it in the same way.
proof fn agreement_is_enough(a: IrReplayTraceV, b: IrReplayTraceV, e: EffectV)
    requires
        location_of(e) is Some,
        agree(a, b, id_of(e)),
    ensures
        driver::recorded_answer(e, a) == driver::recorded_answer(e, b),
        driver::approached_again(e, a) == driver::approached_again(e, b),
{
}

/// Every effect that a machine asks for stands at a location of its kind.
proof fn effects_are_placed(d: DriverV)
    requires
        driver::next_action(d) matches Ok(ActionV::Perform(_, _)),
    ensures
        driver::next_action(d) matches Ok(ActionV::Perform(_, e)) && is_placed(e),
{
    reveal(machine::stepped);
}

/// What a gate records is enough to come to the same decision again, and says
/// nothing about other effects.
proof fn gates_are_recorded(d: DriverV, e: EffectV, w: World, x: IndexV)
    requires
        is_placed(e),
        entry(x.trace.approval_requests, id_of(e)) is None,
        entry(x.trace.approval_resolutions, id_of(e)) is None,
    ensures
        replay::indexed_from(x, gate_met(d, e, w).0) matches Ok(y) && {
            &&& y.ops == x.ops
            &&& y.early == x.early
            &&& driver::approached_again(e, y.trace) matches Ok(g) && g.1 == gate_met(d, e, w).1
            &&& forall|id: Seq<char>| id != id_of(e) ==> #[trigger] agree(x.trace, y.trace, id)
            &&& y.trace == (IrReplayTraceV {
                approval_requests: y.trace.approval_requests,
                approval_resolutions: y.trace.approval_resolutions,
                ..x.trace
            })
        },
{
    reveal_strlit("approved");
    reveal_strlit("denied");
    assert("approved"@.len() != "denied"@.len());
    let (events, outcome) = gate_met(d, e, w);
    if events.len() == 0 {
        assert(events =~= Seq::empty());
    } else if events.len() == 1 {
        assert(events =~= seq![events[0]]);
        replay::index_of_one(x, events[0]);
    } else {
        assert(events =~= seq![events[0], events[1]]);
        replay::index_of_two(x, events[0], events[1]);
    }
    match e {
        EffectV::Eval { command, argv, .. } => {
            json::same_reflexive(interpreter::eval_request(command, argv));
        },
        EffectV::Store { sink, op, id, item, content_hash, .. } => {
            json::same_reflexive(interpreter::store_request(sink, op, id, item, content_hash));
        },
        _ => {},
    }
}

/// What is recorded around an effect that gave an answer is enough to give
/// the answer again, and says nothing about other effects.
proof fn calls_are_recorded(d: DriverV, e: EffectV, w: World, x: IndexV)
    requires
        is_placed(e),
        (w.answer)(e) is Ok,
        driver::fits(e, (w.answer)(e)),
        entry(x.trace.infer_errors, id_of(e)) is None,
        entry(x.trace.eval_errors, id_of(e)) is None,
        entry(x.trace.retrieve_errors, id_of(e)) is None,
        entry(x.trace.store_errors, id_of(e)) is None,
        entry(x.trace.tool_errors, id_of(e)) is None,
    ensures
        replay::indexed_from(x, call_met(d, e, w)) matches Ok(y) && {
            &&& y.early == x.early
            &&& driver::recorded_answer(e, y.trace) == (w.answer)(e)
            &&& driver::approached_again(e, y.trace) == driver::approached_again(e, x.trace)
            &&& forall|id: Seq<char>| id != id_of(e) ==> #[trigger] agree(x.trace, y.trace, id)
        },
{
    let events = call_met(d, e, w);
    replay::index_of_two(x, events[0], events[1]);
    match e {
        EffectV::Tool { arguments, .. } => {
            json::same_reflexive(arguments);
        },
        _ => {},
    }
}

/// Whether a recording says nothing about an effect.
pub open spec fn silent(t: IrReplayTraceV, id: Seq<char>) -> bool {
    agree(t, replay::nothing_recorded(), id)
}

/// Whether a recording decides and answers every effect of a run as the world
/// does.
pub open spec fn holds(t: IrReplayTraceV, d: DriverV, w: World, n: nat) -> bool
    decreases n,
{
    n == 0 || {
        &&& match driver::next_action(d) {
            Ok(ActionV::Perform(x, e)) => {
                &&& driver::approached_again(e, t) matches Ok(g) && g.1 == gate_met(x, e, w).1
                &&& gate_met(x, e, w).1 is Proceed ==> driver::recorded_answer(e, t) == (w.answer)(
                    e,
                )
            },
            _ => true,
        }
        &&& match live_step(d, w) {
            LiveStep::Go(_, x) => holds(t, x, w, (n - 1) as nat),
            LiveStep::Stop(_, _) => true,
        }
    }
}

/// The step of a recording at an effect.
proof fn effect_is_recorded(d: DriverV, e: EffectV, w: World, x: IndexV)
    requires
        is_placed(e),
        silent(x.trace, id_of(e)),
        gate_met(d, e, w).1 is Proceed ==> (w.answer)(e) is Ok && driver::fits(e, (w.answer)(e)),
    ensures
        replay::indexed_from(x, noted(effect_met(d, e, w))) matches Ok(y) && {
            &&& y.early == x.early
            &&& driver::approached_again(e, y.trace) matches Ok(g) && g.1 == gate_met(d, e, w).1
            &&& gate_met(d, e, w).1 is Proceed ==> driver::recorded_answer(
                e,
                y.trace,
            ) == (w.answer)(
                e,
            )
            &&& forall|id: Seq<char>| id != id_of(e) ==> #[trigger] agree(x.trace, y.trace, id)
        },
{
    gates_are_recorded(d, e, w, x);
    let (events, outcome) = gate_met(d, e, w);
    if outcome is Proceed {
        let y = replay::indexed_from(x, events)->Ok_0;
        calls_are_recorded(d, e, w, y);
        replay::indexed_in_parts(x, events, call_met(d, e, w));
        let z = replay::indexed_from(y, call_met(d, e, w))->Ok_0;
        assert forall|id: Seq<char>| id != id_of(e) implies #[trigger] agree(
            x.trace,
            z.trace,
            id,
        ) by {
            assert(agree(x.trace, y.trace, id));
            assert(agree(y.trace, z.trace, id));
        }
    }
}

/// The recording of a smooth run holds everything that the run met, and says
/// nothing about other effects.
proof fn recordings_hold(d: DriverV, w: World, n: nat, x: IndexV)
    requires
        smooth(d, w, n),
        forall|id: Seq<char>| met(d, w, n).contains(id) ==> #[trigger] silent(x.trace, id),
    ensures
        replay::indexed_from(x, recording(d, w, n)) matches Ok(y) && {
            &&& y.early == x.early
            &&& holds(y.trace, d, w, n)
            &&& forall|id: Seq<char>| !met(d, w, n).contains(id) ==> #[trigger] agree(
                x.trace,
                y.trace,
                id,
            )
        },
    decreases n,
{
    if n > 0 {
        let events = noted(live_step(d, w));
        let y = replay::indexed_from(x, events)->Ok_0;
        match driver::next_action(d) {
            Ok(ActionV::Emit(_, v)) => {
                replay::index_of_one(x, (w.emitted)(v));
                assert(y == x);
            },
            Ok(ActionV::Perform(a, e)) => {
                effects_are_placed(d);
                assert(met(d, w, n).contains(id_of(e)));
                assert(silent(x.trace, id_of(e)));
                effect_is_recorded(a, e, w, x);
                assert(live_step(d, w) == effect_met(a, e, w));
                assert(forall|id: Seq<char>|
                    id != id_of(e) ==> #[trigger] agree(x.trace, y.trace, id));
            },
            _ => {
                assert(events =~= Seq::empty());
                assert(y == x);
            },
        }
        match live_step(d, w) {
            LiveStep::Stop(_, _) => {},
            LiveStep::Go(_, after) => {
                let rest = (n - 1) as nat;
                assert forall|id: Seq<char>| met(
                    after,
                    w,
                    rest,
                ).contains(id) implies #[trigger] silent(
                    y.trace,
                    id,
                ) by {
                    assert(met(d, w, n).contains(id));
                    assert(silent(x.trace, id));
                    match driver::next_action(d) {
                        Ok(ActionV::Perform(_, e)) => {
                            assert(id != id_of(e));
                            assert(agree(x.trace, y.trace, id));
                        },
                        _ => {},
                    }
                }
                recordings_hold(after, w, rest, y);
                replay::indexed_in_parts(x, events, recording(after, w, rest));
                let z = replay::indexed_from(y, recording(after, w, rest))->Ok_0;
                match driver::next_action(d) {
                    Ok(ActionV::Perform(_, e)) => {
                        assert(agree(y.trace, z.trace, id_of(e)));
                        agreement_is_enough(y.trace, z.trace, e);
                    },
                    _ => {},
                }
                assert forall|id: Seq<char>| !met(d, w, n).contains(id) implies #[trigger] agree(
                    x.trace,
                    z.trace,
                    id,
                ) by {
                    assert(agree(x.trace, y.trace, id));
                    assert(agree(y.trace, z.trace, id));
                }
            },
        }
    }
}

/// A step of a replay is the step of a driver that takes its decisions and
/// its answers from the recording.
pub proof fn replay_is_driven(m: MachineV, e: EffectV, t: IrReplayTraceV)
    requires
        location_of(e) is Some,
    ensures
        interpreter::answered_step(m, e, t) == match driver::approached_again(e, t) {
            Err(x) => Err(RunErrorV::Replay(x)),
            Ok((events, GateOutcomeV::Proceed)) => interpreter::moved(
                interpreter::settled(
                    m,
                    driver::out_of(e)->0,
                    driver::mode_of(e),
                    driver::bound_result(driver::recorded_answer(e, t)),
                ),
                events,
            ),
            Ok((events, GateOutcomeV::Deny(v))) => Ok(
                ReplayStepV::Moved(machine::went_on(m, driver::out_of(e)->0, v), events),
            ),
            Ok((events, GateOutcomeV::Pause(p))) => Ok(
                ReplayStepV::Paused(machine::rewound(m, interpreter::site_of(m)), events, p),
            ),
        },
{
}

/// A recording that holds what a run met leads a replay through the same
/// steps to the same end.
proof fn holding_recordings_lead(t: IrReplayTraceV, d: DriverV, w: World, n: nat)
    requires
        holds(t, d, w, n),
        d.limit is None,
    ensures
        interpreter::replayed_run(d.machine, w.store, d.hash, t, n) == ending(d, w, n),
    decreases n,
{
    if n > 0 {
        match driver::next_action(d) {
            Ok(ActionV::Perform(x, e)) => {
                effects_are_placed(d);
                replay_is_driven(x.machine, e, t);
            },
            _ => {},
        }
        match live_step(d, w) {
            LiveStep::Go(_, x) => {
                holding_recordings_lead(t, x, w, (n - 1) as nat);
            },
            LiveStep::Stop(_, _) => {},
        }
    }
}

/// Replay reproduces a run.  Whatever answers and decisions a run met, the
/// events that it recorded can be read back, and a replay of them takes as
/// many steps and ends in the same way: with the same value, at the same
/// place, waiting for the same decision, or with the same error.  This holds
/// of every run in which each effect that was carried out gave an answer and
/// no two effects had one identity; a failure is replayed as a failure, but
/// with a text that names the effect.
pub proof fn recorded_runs_are_reproduced(d: DriverV, w: World, n: nat)
    requires
        d.limit is None,
        smooth(d, w, n),
    ensures
        replay::indexed(recording(d, w, n)) matches Ok(x) && interpreter::replayed_run(
            d.machine,
            w.store,
            d.hash,
            x.trace,
            n,
        ) == ending(d, w, n),
{
    recordings_hold(d, w, n, replay::blank());
    let x = replay::indexed_from(replay::blank(), recording(d, w, n))->Ok_0;
    assert(x.early =~= Seq::empty());
    assert(replay::caught_up(x) == Ok::<IndexV, ReplayErrorV>(x));
    holding_recordings_lead(x.trace, d, w, n);
}

/// A recorded failure is reproduced, never retried: after a call that failed
/// the recording answers the effect with that failure, whatever else is on
/// record.
pub proof fn recorded_failures_are_reproduced(d: DriverV, e: EffectV, w: World, x: IndexV)
    requires
        is_placed(e),
        (w.answer)(e) is Err,
    ensures
        replay::indexed_from(x, call_met(d, e, w)) matches Ok(y) && driver::recorded_answer(e, y.trace)
            == Err::<AnswerV, Seq<char>>(
            replay::replay_error_text(
                ReplayErrorV::Failed {
                    kind: location_of(e)->0.kind,
                    effect_id: id_of(e),
                    error: (w.answer)(e)->Err_0,
                },
            ),
        ),
{
    let events = call_met(d, e, w);
    replay::index_of_two(x, events[0], events[1]);
    match e {
        EffectV::Tool { arguments, .. } => {
            json::same_reflexive(arguments);
        },
        _ => {},
    }
}

/// Nothing that was not recorded is replayed: every answer that a recording
/// gives is the recorded result of that very call.
pub proof fn only_recorded_answers_are_given(e: EffectV, t: IrReplayTraceV)
    requires
        location_of(e) is Some,
        driver::recorded_answer(e, t) is Ok,
    ensures
        ({
            let id = id_of(e);
            match (e, driver::recorded_answer(e, t)->Ok_0) {
                (EffectV::Infer { model, .. }, AnswerV::Response(r)) => {
                    &&& entry(t.infer_calls, id) matches Some(c) && c.model == model
                    &&& entry(t.infer_results, id) == Some(r)
                    &&& entry(t.infer_errors, id) is None
                },
                (EffectV::Eval { command, argv, .. }, AnswerV::Value(r)) => {
                    &&& entry(t.eval_calls, id) matches Some(c) && c.command == command && c.argv
                        == argv
                    &&& entry(t.eval_results, id) == Some(r)
                    &&& entry(t.eval_errors, id) is None
                },
                (EffectV::Retrieve { query, max_bytes, .. }, AnswerV::Value(r)) => {
                    &&& entry(t.retrieve_calls, id) matches Some(c) && c.query == query
                        && c.max_bytes == max_bytes
                    &&& entry(t.retrieve_results, id) == Some(r)
                    &&& entry(t.retrieve_errors, id) is None
                },
                (EffectV::Store { sink, content_hash, .. }, AnswerV::Id(r)) => {
                    &&& entry(t.store_calls, id) matches Some(c) && c.sink == sink
                        && c.content_hash == content_hash
                    &&& entry(t.store_results, id) == Some(r)
                    &&& entry(t.store_errors, id) is None
                },
                (EffectV::Tool { name, arguments, .. }, AnswerV::Value(r)) => {
                    &&& entry(t.tool_calls, id) matches Some(c) && c.name == name && json::same(
                        c.arguments,
                        arguments,
                    )
                    &&& entry(t.tool_results, id) == Some(r)
                    &&& entry(t.tool_errors, id) is None
                },
                _ => false,
            }
        }),
{
}

/// Whether two events belong to one call: the second is an outcome of the
/// operation that the first opened, under the same parent.
pub open spec fn belong_together(call: EventV, outcome: EventV) -> bool {
    match (call, outcome) {
        (
            EventV::InferCall { run_id, op_id, parent_op_id, .. },
            EventV::InferResult { run_id: r, op_id: o, parent_op_id: p, .. },
        ) => r == run_id && o == op_id && p == parent_op_id,
        (
            EventV::InferCall { run_id, op_id, parent_op_id, .. },
            EventV::InferError { run_id: r, op_id: o, parent_op_id: p, .. },
        ) => r == run_id && o == op_id && p == parent_op_id,
        _ => replay::call_op(call) is Some && replay::outcome_op(outcome) == replay::call_op(call),
    }
}

/// Every effect that is carried out leaves one call and one outcome, and they
/// belong together.
pub proof fn calls_are_closed(d: DriverV, e: EffectV, w: World)
    requires
        location_of(e) is Some,
        driver::fits(e, (w.answer)(e)),
    ensures
        call_met(d, e, w).len() == 2,
        belong_together(call_met(d, e, w)[0], call_met(d, e, w)[1]),
        e matches EffectV::Infer {
            tools: Some(_),
            ..
        } ==> (call_met(d, e, w)[0] matches EventV::InferCall {
            parent_op_id,
            ..
        } && parent_op_id == d.last_turn),
        e matches EffectV::Infer {
            tools: None,
            ..
        } ==> opened(d, e, w).last_turn == Some((w.op)(e)),
{
}

/// A limit is kept: a run with a limit never takes more steps, and it is only
/// suspended when they are used up.
pub proof fn limits_are_kept(d: DriverV, w: World)
    requires
        d.limit matches Some(n) && d.executed <= n,
    ensures
        live_step(d, w) matches LiveStep::Go(_, x) ==> x.limit == d.limit && d.executed
            < x.executed && x.executed <= d.limit->0,
        driver::next_action(d) matches Ok(ActionV::Suspend) ==> d.executed == d.limit->0,
{
}

/// A run of a machine as it begins.
pub open spec fn begun(
    m: MachineV,
    hash: Seq<char>,
    run_id: Seq<char>,
    limit: Option<usize>,
) -> DriverV {
    DriverV { machine: m, hash, run_id, limit, executed: 0, last_turn: None }
}

/// The effect that a run carries out in its next step.
pub open spec fn performs(d: DriverV, w: World) -> Option<EffectV> {
    match driver::next_action(d) {
        Ok(ActionV::Perform(x, e)) => if gate_met(x, e, w).1 is Proceed {
            Some(e)
        } else {
            None
        },
        _ => None,
    }
}

/// The effects that a run of at most so many steps carries out, in order.
pub open spec fn performed(d: DriverV, w: World, n: nat) -> Seq<EffectV>
    decreases n,
{
    if n == 0 {
        Seq::empty()
    } else {
        let now = match performs(d, w) {
            Some(e) => seq![e],
            None => Seq::empty(),
        };
        match live_step(d, w) {
            LiveStep::Stop(_, _) => now,
            LiveStep::Go(_, x) => now + performed(x, w, (n - 1) as nat),
        }
    }
}

/// The instructions and block transitions that a run of at most so many steps
/// gets through.
pub open spec fn taken(d: DriverV, w: World, n: nat) -> nat
    decreases n,
{
    if n == 0 {
        0
    } else {
        match live_step(d, w) {
            LiveStep::Stop(_, _) => 0,
            LiveStep::Go(_, x) => 1 + taken(x, w, (n - 1) as nat),
        }
    }
}

/// Whether two runs differ only in what they have counted and noted.
spec fn alike(a: DriverV, b: DriverV) -> bool {
    a.machine == b.machine && a.hash == b.hash && a.run_id == b.run_id
}

/// Runs that are not at their limits take the same step.
proof fn like_runs_step_alike(a: DriverV, b: DriverV, w: World)
    requires
        alike(a, b),
        !driver::used_up(a),
        !driver::used_up(b),
    ensures
        performs(a, w) == performs(b, w),
        match (live_step(a, w), live_step(b, w)) {
            (LiveStep::Go(_, x), LiveStep::Go(_, y)) => alike(x, y) && x.limit == a.limit
                && x.executed == driver::counted(a.executed) && y.limit == b.limit,
            (LiveStep::Stop(_, x), LiveStep::Stop(_, y)) => x == y && !(x matches Ok(
                OutcomeV::Suspended(_),
            )),
            _ => false,
        },
{
    match (driver::next_action(a), driver::next_action(b)) {
        (Ok(ActionV::Perform(x, e)), Ok(ActionV::Perform(y, f))) => {
            assert(e == f);
            assert(driver::approached(x, e, (w.guarded)(e), (w.resolution)(e))
                == driver::approached(y, e, (w.guarded)(e), (w.resolution)(e)));
            assert(gate_met(x, e, w).1 == gate_met(y, e, w).1);
        },
        _ => {},
    }
}

/// Runs without limits that differ only in what they have counted and noted
/// end alike and carry out the same effects.
proof fn like_runs_end_alike(a: DriverV, b: DriverV, w: World, n: nat)
    requires
        alike(a, b),
        a.limit is None,
        b.limit is None,
    ensures
        ending(a, w, n) == ending(b, w, n),
        performed(a, w, n) == performed(b, w, n),
    decreases n,
{
    if n > 0 {
        like_runs_step_alike(a, b, w);
        match (live_step(a, w), live_step(b, w)) {
            (LiveStep::Go(_, x), LiveStep::Go(_, y)) => {
                like_runs_end_alike(x, y, w, (n - 1) as nat);
            },
            _ => {},
        }
    }
}

/// A limited run and the free run beside it.
proof fn limits_only_stop(a: DriverV, b: DriverV, w: World, first: nat, more: nat)
    requires
        alike(a, b),
        b.limit is None,
        a.limit matches Some(k) && a.executed <= k && first > k - a.executed,
    ensures
        ({
            let left = (a.limit->0 - a.executed) as nat;
            match ending(a, w, first) {
                Ok(OutcomeV::Suspended(c)) => {
                    let again = begun(c.machine, b.hash, b.run_id, None);
                    &&& c.store == w.store
                    &&& taken(a, w, first) == left
                    &&& ending(b, w, left + more) == ending(again, w, more)
                    &&& performed(b, w, left + more) == performed(a, w, first) + performed(
                        again,
                        w,
                        more,
                    )
                },
                r => r == ending(b, w, first) && performed(a, w, first) == performed(b, w, first),
            }
        }),
    decreases first,
{
    if driver::used_up(a) {
        let again = begun(a.machine, b.hash, b.run_id, None);
        like_runs_end_alike(b, again, w, more);
        assert(performed(a, w, first) + performed(again, w, more) =~= performed(again, w, more));
    } else {
        like_runs_step_alike(a, b, w);
        match (live_step(a, w), live_step(b, w)) {
            (LiveStep::Go(_, x), LiveStep::Go(_, y)) => {
                limits_only_stop(x, y, w, (first - 1) as nat, more);
                let left = (a.limit->0 - a.executed) as nat;
                assert((left + more - 1) as nat == ((left - 1) as nat) + more);
                match ending(a, w, first) {
                    Ok(OutcomeV::Suspended(c)) => {
                        let again = begun(c.machine, b.hash, b.run_id, None);
                        let now = match performs(a, w) {
                            Some(e) => seq![e],
                            None => Seq::empty(),
                        };
                        assert(now + (performed(x, w, (first - 1) as nat) + performed(
                            again,
                            w,
                            more,
                        )) =~= (now + performed(x, w, (first - 1) as nat)) + performed(
                            again,
                            w,
                            more,
                        ));
                    },
                    _ => {},
                }
            },
            _ => {},
        }
    }
}

/// Stopping does not matter.  A run that is stopped at a limit has taken
/// exactly that many steps, and its checkpoint holds the values behind it; a
/// run that is begun anew from the checkpoint ends as one that was never
/// stopped, and what the two parts carry out is, effect for effect and in
/// order, what the whole run carries out.  A run that ends before its limit
/// ends as if it had none.
pub proof fn stopped_runs_resume(
    m: MachineV,
    hash: Seq<char>,
    run_id: Seq<char>,
    w: World,
    limit: usize,
    first: nat,
    more: nat,
)
    requires
        first > limit,
    ensures
        ({
            let whole = begun(m, hash, run_id, None);
            let part = begun(m, hash, run_id, Some(limit));
            match ending(part, w, first) {
                Ok(OutcomeV::Suspended(c)) => {
                    let again = begun(c.machine, hash, run_id, None);
                    &&& c.store == w.store
                    &&& taken(part, w, first) == limit
                    &&& ending(whole, w, limit as nat + more) == ending(again, w, more)
                    &&& performed(whole, w, limit as nat + more) == performed(part, w, first)
                        + performed(again, w, more)
                },
                r => r == ending(whole, w, first) && performed(part, w, first) == performed(
                    whole,
                    w,
                    first,
                ),
            }
        }),
{
    limits_only_stop(
        begun(m, hash, run_id, Some(limit)),
        begun(m, hash, run_id, None),
        w,
        first,
        more,
    );
}

/// Whether no instruction was visited so often that its visits cannot be
/// counted for so many steps more.
pub open spec fn countable(m: MachineV, n: nat) -> bool {
    forall|site: EffectSite| #[trigger] machine::visits_at(m, site) + n <= u64::MAX
}

/// A step counts no visit but that of its own instruction, and counts that
/// one where it meets an effect.
proof fn steps_count_visits(d: DriverV, w: World, site: EffectSite)
    requires
        live_step(d, w) is Go,
        machine::visits_at(d.machine, site) < u64::MAX,
    ensures
        ({
            let x = live_step(d, w)->Go_1;
            &&& x.hash == d.hash
            &&& machine::visits_at(d.machine, site) <= machine::visits_at(x.machine, site)
                <= machine::visits_at(d.machine, site) + 1
            &&& driver::next_action(d) matches Ok(ActionV::Perform(_, e)) ==> location_of(e)->0.site
                == site ==> machine::visits_at(x.machine, site) == machine::visits_at(
                d.machine,
                site,
            ) + 1
        }),
{
    reveal(machine::stepped);
}

/// An effect is told by its place and by how often its instruction was
/// visited before.
proof fn effects_are_located(d: DriverV)
    requires
        driver::next_action(d) matches Ok(ActionV::Perform(_, _)),
    ensures
        driver::next_action(d) matches Ok(ActionV::Perform(_, e)) && (location_of(e) matches Some(l)
            && l.dynamic_path.visit == machine::visits_at(d.machine, l.site)),
{
    reveal(machine::stepped);
}

/// Every effect that a run carries out was visited at least as often as its
/// instruction was when the run began.
proof fn later_effects_are_later(d: DriverV, w: World, n: nat, i: int)
    requires
        countable(d.machine, n),
        0 <= i < performed(d, w, n).len(),
    ensures
        location_of(performed(d, w, n)[i]) matches Some(l) && l.dynamic_path.visit
            >= machine::visits_at(d.machine, l.site),
    decreases n,
{
    if performs(d, w) is Some {
        effects_are_located(d);
    }
    let skip: int = if performs(d, w) is Some {
        1
    } else {
        0
    };
    if i >= skip {
        let x = live_step(d, w)->Go_1;
        visits_stay_countable(d, w, n);
        later_effects_are_later(x, w, (n - 1) as nat, i - skip);
        let l = location_of(performed(d, w, n)[i])->0;
        steps_count_visits(d, w, l.site);
    }
}

proof fn visits_stay_countable(d: DriverV, w: World, n: nat)
    requires
        n > 0,
        countable(d.machine, n),
        live_step(d, w) is Go,
    ensures
        countable((live_step(d, w)->Go_1).machine, (n - 1) as nat),
{
    let x = live_step(d, w)->Go_1;
    assert forall|site: EffectSite| #[trigger] machine::visits_at(x.machine, site) + (n - 1)
        <= u64::MAX by {
        assert(machine::visits_at(d.machine, site) + n <= u64::MAX);
        steps_count_visits(d, w, site);
    }
}

/// Nothing is carried out twice: no two effects that a run carries out share
/// an identity, short of a collision of digests, for the texts under their
/// identities differ.  So neither does a run that is stopped and resumed
/// carry out again what it has completed.
pub proof fn nothing_is_carried_out_twice(d: DriverV, w: World, n: nat, i: int, j: int)
    requires
        countable(d.machine, n),
        0 <= i < j < performed(d, w, n).len(),
    ensures
        location_of(performed(d, w, n)[i]) is Some,
        location_of(performed(d, w, n)[j]) is Some,
        run_laws::told(location_of(performed(d, w, n)[i])->0) != run_laws::told(
            location_of(performed(d, w, n)[j])->0,
        ),
    decreases n,
{
    let skip: int = if performs(d, w) is Some {
        1
    } else {
        0
    };
    let x = live_step(d, w)->Go_1;
    visits_stay_countable(d, w, n);
    if i >= skip {
        nothing_is_carried_out_twice(x, w, (n - 1) as nat, i - skip, j - skip);
    } else {
        effects_are_located(d);
        later_effects_are_later(x, w, (n - 1) as nat, j - skip);
        let a = location_of(performed(d, w, n)[i])->0;
        let b = location_of(performed(d, w, n)[j])->0;
        steps_count_visits(d, w, a.site);
        if run_laws::told(a) == run_laws::told(b) {
            effect_laws::identities_tell_effects_apart(
                a.program_hash,
                a.kind,
                a.site,
                a.dynamic_path,
                b.program_hash,
                b.kind,
                b.site,
                b.dynamic_path,
            );
        }
    }
}

/// Every effect that a completed run carried out is counted by the machine
/// that the run left.
proof fn carried_out_is_counted(d: DriverV, w: World, n: nat, v: JsonV, done: MachineV, i: int)
    requires
        ending(d, w, n) == Ok::<OutcomeV, RunErrorV>(OutcomeV::Complete(v, done)),
        countable(d.machine, n),
        0 <= i < performed(d, w, n).len(),
    ensures
        location_of(performed(d, w, n)[i]) matches Some(l) && l.dynamic_path.visit
            < machine::visits_at(done, l.site),
    decreases n,
{
    let skip: int = if performs(d, w) is Some {
        1
    } else {
        0
    };
    let x = live_step(d, w)->Go_1;
    visits_stay_countable(d, w, n);
    if i >= skip {
        carried_out_is_counted(x, w, (n - 1) as nat, v, done, i - skip);
    } else {
        effects_are_located(d);
        let l = location_of(performed(d, w, n)[i])->0;
        steps_count_visits(d, w, l.site);
        visits_are_kept(x, w, (n - 1) as nat, v, done, l.site);
    }
}

proof fn visits_are_kept(
    d: DriverV,
    w: World,
    n: nat,
    v: JsonV,
    done: MachineV,
    site: EffectSite,
)
    requires
        ending(d, w, n) == Ok::<OutcomeV, RunErrorV>(OutcomeV::Complete(v, done)),
        countable(d.machine, n),
    ensures
        machine::visits_at(d.machine, site) <= machine::visits_at(done, site),
    decreases n,
{
    match live_step(d, w) {
        LiveStep::Go(_, x) => {
            visits_stay_countable(d, w, n);
            assert(machine::visits_at(d.machine, site) + n <= u64::MAX);
            steps_count_visits(d, w, site);
            visits_are_kept(x, w, (n - 1) as nat, v, done, site);
        },
        LiveStep::Stop(_, _) => {},
    }
}

/// Identities stay apart from run to run: where a run begins with the visits
/// that a completed run left, as a repair of an output does and the next turn
/// of a session, nothing that it carries out shares an identity with what was
/// carried out before.
pub proof fn carried_visits_keep_effects_apart(
    d: DriverV,
    w: World,
    n: nat,
    v: JsonV,
    done: MachineV,
    next: DriverV,
    other: World,
    k: nat,
    i: int,
    j: int,
)
    requires
        ending(d, w, n) == Ok::<OutcomeV, RunErrorV>(OutcomeV::Complete(v, done)),
        next.machine.visits == done.visits,
        countable(d.machine, n),
        countable(next.machine, k),
        0 <= i < performed(d, w, n).len(),
        0 <= j < performed(next, other, k).len(),
    ensures
        location_of(performed(d, w, n)[i]) is Some,
        location_of(performed(next, other, k)[j]) is Some,
        run_laws::told(location_of(performed(d, w, n)[i])->0) != run_laws::told(
            location_of(performed(next, other, k)[j])->0,
        ),
{
    carried_out_is_counted(d, w, n, v, done, i);
    later_effects_are_later(next, other, k, j);
    let a = location_of(performed(d, w, n)[i])->0;
    let b = location_of(performed(next, other, k)[j])->0;
    if run_laws::told(a) == run_laws::told(b) {
        effect_laws::identities_tell_effects_apart(
            a.program_hash,
            a.kind,
            a.site,
            a.dynamic_path,
            b.program_hash,
            b.kind,
            b.site,
            b.dynamic_path,
        );
    }
}

/// A replay reproduces what a run cost: whatever prices hold now, what is
/// recorded of a replayed inference has the tokens, the cost and the prices of
/// the recorded response.
pub proof fn replays_reproduce_costs(
    d: DriverV,
    e: EffectV,
    call: Call,
    t: IrReplayTraceV,
    closing: ClosingV,
)
    requires
        e is Infer,
        driver::recorded_answer(e, t) is Ok,
    ensures
        ({
            let x = replay::infer_answer(t, e->Infer_location, e->Infer_model)->Ok_0;
            &&& driver::recorded_answer(e, t) == Ok::<AnswerV, Seq<char>>(AnswerV::Response(x))
            &&& driver::outcome_record(
                d,
                e,
                call,
                driver::recorded_answer(e, t),
                closing,
            ) matches Some(
                EventV::InferResult {
                    response,
                    input_tokens,
                    output_tokens,
                    total_tokens,
                    cached_input_tokens,
                    cost_micro_usd,
                    pricing,
                    ..
                },
            )
            &&& response == Some(x)
            &&& input_tokens == x.input_tokens
            &&& output_tokens == x.output_tokens
            &&& total_tokens == x.total_tokens
            &&& cached_input_tokens == x.cached_input_tokens
            &&& cost_micro_usd == x.cost_micro_usd
            &&& pricing == x.pricing
        }),
{
}

} // verus!
