//! Approval of gated effects: who decides, in which order, and what a
//! decision becomes.
use crate::digest;
use crate::digest::digest_of;
use crate::effect::{EffectLocation, EffectLocationV};
use crate::ir_hash::{record3, record4};
use crate::json;
use crate::json::{same_json, Json, JsonV};
use crate::op;
use crate::op::copy_opt;
use crate::replay;
use crate::replay::{IrReplayTrace, IrReplayTraceV, ReplayError, ReplayErrorV};
use crate::table::get_entry;
use crate::text;
use crate::text::{preview, same_text};
use vstd::prelude::*;

verus! {

/// The kinds of effects that can be gated.
#[derive(Debug, Clone, Copy, PartialEq, Eq, Structural)]
pub enum ApprovalKind {
    Eval,
    Store,
}

/// A decision on a gated effect.
#[derive(Debug, Clone, Copy, PartialEq, Eq, Structural)]
pub enum ApprovalDecision {
    Approve,
    Deny,
}

impl ApprovalKind {
    pub open spec fn text(self) -> Seq<char> {
        match self {
            ApprovalKind::Eval => "eval"@,
            ApprovalKind::Store => "store"@,
        }
    }

    pub fn as_str(self) -> (r: &'static str)
        ensures
            r@ == self.text(),
    {
        match self {
            ApprovalKind::Eval => "eval",
            ApprovalKind::Store => "store",
        }
    }
}

impl ApprovalDecision {
    pub open spec fn text(self) -> Seq<char> {
        match self {
            ApprovalDecision::Approve => "approved"@,
            ApprovalDecision::Deny => "denied"@,
        }
    }

    pub fn as_status_str(self) -> (r: &'static str)
        ensures
            r@ == self.text(),
    {
        match self {
            ApprovalDecision::Approve => "approved",
            ApprovalDecision::Deny => "denied",
        }
    }
}

/// A gated effect that waits for a decision.
#[derive(Debug)]
pub struct ApprovalRequest {
    pub pending_id: String,
    pub effect: EffectLocation,
    pub kind: ApprovalKind,
    pub request: Json,
}

/// The model of a request.
pub struct ApprovalRequestV {
    pub pending_id: Seq<char>,
    pub effect: EffectLocationV,
    pub kind: ApprovalKind,
    pub request: JsonV,
}

impl ApprovalRequest {
    pub open spec fn view(&self) -> ApprovalRequestV {
        ApprovalRequestV {
            pending_id: self.pending_id@,
            effect: self.effect@,
            kind: self.kind,
            request: self.request@,
        }
    }
}

impl Clone for ApprovalRequest {
    fn clone(&self) -> (r: Self)
        ensures
            r@ == self@,
    {
        ApprovalRequest {
            pending_id: self.pending_id.clone(),
            effect: self.effect.clone(),
            kind: self.kind,
            request: self.request.clone(),
        }
    }
}

/// A decision that was made before the effect was reached.
#[derive(Debug)]
pub struct ApprovalResolution {
    pub decision: ApprovalDecision,
    pub resolved_by: Option<String>,
    pub reason: Option<String>,
}

/// The model of a resolution.
pub struct ApprovalResolutionV {
    pub decision: ApprovalDecision,
    pub resolved_by: Option<Seq<char>>,
    pub reason: Option<Seq<char>>,
}

impl ApprovalResolution {
    pub open spec fn view(&self) -> ApprovalResolutionV {
        ApprovalResolutionV {
            decision: self.decision,
            resolved_by: op::opt_text(self.resolved_by),
            reason: op::opt_text(self.reason),
        }
    }
}

impl Clone for ApprovalResolution {
    fn clone(&self) -> (r: Self)
        ensures
            r@ == self@,
    {
        ApprovalResolution {
            decision: self.decision,
            resolved_by: copy_opt(&self.resolved_by),
            reason: copy_opt(&self.reason),
        }
    }
}

/// What a gate records.
#[derive(Debug)]
pub enum GateEvent {
    Requested { pending_id: String, kind: ApprovalKind, request: Json, effect: EffectLocation },
    Resolved {
        pending_id: String,
        effect_id: String,
        kind: ApprovalKind,
        decision: String,
        resolved_by: Option<String>,
        reason: Option<String>,
    },
}

/// The model of a gate event.
pub enum GateEventV {
    Requested {
        pending_id: Seq<char>,
        kind: ApprovalKind,
        request: JsonV,
        effect: EffectLocationV,
    },
    Resolved {
        pending_id: Seq<char>,
        effect_id: Seq<char>,
        kind: ApprovalKind,
        decision: Seq<char>,
        resolved_by: Option<Seq<char>>,
        reason: Option<Seq<char>>,
    },
}

impl GateEvent {
    pub open spec fn view(&self) -> GateEventV {
        match self {
            GateEvent::Requested { pending_id, kind, request, effect } => GateEventV::Requested {
                pending_id: pending_id@,
                kind: *kind,
                request: request@,
                effect: effect@,
            },
            GateEvent::Resolved {
                pending_id,
                effect_id,
                kind,
                decision,
                resolved_by,
                reason,
            } => GateEventV::Resolved {
                pending_id: pending_id@,
                effect_id: effect_id@,
                kind: *kind,
                decision: decision@,
                resolved_by: op::opt_text(*resolved_by),
                reason: op::opt_text(*reason),
            },
        }
    }
}

/// What a gate decided: the effect is carried out, or a value takes the place
/// of its result, or the machine waits.
#[derive(Debug)]
pub enum GateOutcome {
    Proceed,
    Deny(Json),
    Pause(ApprovalRequest),
}

/// The model of a gate outcome.
pub enum GateOutcomeV {
    Proceed,
    Deny(JsonV),
    Pause(ApprovalRequestV),
}

impl GateOutcome {
    pub open spec fn view(&self) -> GateOutcomeV {
        match self {
            GateOutcome::Proceed => GateOutcomeV::Proceed,
            GateOutcome::Deny(x) => GateOutcomeV::Deny(x@),
            GateOutcome::Pause(x) => GateOutcomeV::Pause(x@),
        }
    }
}

/// The models of a list of gate events.
pub open spec fn gate_events(list: Seq<GateEvent>) -> Seq<GateEventV> {
    Seq::new(list.len(), |i: int| list[i]@)
}

/// The id under which a run waits for a decision on an effect.
pub open spec fn pending_id(run_id: Seq<char>, effect_id: Seq<char>) -> Seq<char> {
    "pa-"@ + text::prefix(digest::text_digest(run_id + ":"@ + effect_id), 16)
}

/// The id under which a run waits for a decision on an effect.
pub fn pending_id_for(run_id: &str, effect_id: &str) -> (r: String)
    ensures
        r@ == pending_id(run_id@, effect_id@),
{
    let mut key = run_id.to_owned();
    key.append(":");
    key.append(effect_id);
    let mut out = "pa-".to_owned();
    out.append(preview(digest_of(key.as_str()).as_str(), 16).as_str());
    out
}

/// The JSON form of an optional text.
pub open spec fn opt_text_json(s: Option<Seq<char>>) -> JsonV {
    match s {
        Some(t) => JsonV::Str(t),
        None => JsonV::Null,
    }
}

/// The JSON form of an optional string.
pub fn encode_opt_text(s: &Option<String>) -> (r: Json)
    ensures
        r@ == opt_text_json(op::opt_text(*s)),
{
    match s {
        Some(t) => Json::Str(t.clone()),
        None => Json::Null,
    }
}

/// The value that a denied effect results in.
pub open spec fn denial(
    pending_id: Seq<char>,
    resolved_by: Option<Seq<char>>,
    reason: Option<Seq<char>>,
) -> JsonV {
    JsonV::Object(
        seq![
            (
                "approval"@,
                JsonV::Object(
                    seq![
                        ("pending_id"@, JsonV::Str(pending_id)),
                        ("reason"@, opt_text_json(reason)),
                        ("resolved_by"@, opt_text_json(resolved_by)),
                        ("status"@, JsonV::Str("denied"@)),
                    ],
                ),
            ),
            ("error"@, JsonV::Str("approval denied"@)),
            ("ok"@, JsonV::Bool(false)),
        ],
    )
}

/// The value that a denied effect results in.
pub fn denial_value(
    pending_id: &str,
    resolved_by: &Option<String>,
    reason: &Option<String>,
) -> (r: Json)
    ensures
        r@ == denial(pending_id@, op::opt_text(*resolved_by), op::opt_text(*reason)),
{
    broadcast use json::group_json;

    let story = record4(
        "pending_id",
        Json::text(pending_id),
        "reason",
        encode_opt_text(reason),
        "resolved_by",
        encode_opt_text(resolved_by),
        "status",
        Json::text("denied"),
    );
    record3("approval", story, "error", Json::text("approval denied"), "ok", Json::Bool(false))
}

/// Whether a value is the result of a denied effect.
pub open spec fn is_denial(v: JsonV) -> bool {
    match v.field("approval"@) {
        Some(story) => story.text_field("status"@) == Some("denied"@),
        None => false,
    }
}

/// Whether a value is the result of a denied effect.
pub fn is_denial_value(v: &Json) -> (r: bool)
    ensures
        r == is_denial(v@),
{
    match v.get("approval") {
        Some(story) => match story.get_str("status") {
            Some(s) => same_text(s, "denied"),
            None => false,
        },
        None => false,
    }
}

/// What a decision becomes.
pub open spec fn decided(
    decision: ApprovalDecision,
    pending_id: Seq<char>,
    resolved_by: Option<Seq<char>>,
    reason: Option<Seq<char>>,
) -> GateOutcomeV {
    match decision {
        ApprovalDecision::Approve => GateOutcomeV::Proceed,
        ApprovalDecision::Deny => GateOutcomeV::Deny(denial(pending_id, resolved_by, reason)),
    }
}

fn decide(
    decision: ApprovalDecision,
    pending_id: &str,
    resolved_by: &Option<String>,
    reason: &Option<String>,
) -> (r: GateOutcome)
    ensures
        r@ == decided(decision, pending_id@, op::opt_text(*resolved_by), op::opt_text(*reason)),
{
    match decision {
        ApprovalDecision::Approve => GateOutcome::Proceed,
        ApprovalDecision::Deny => GateOutcome::Deny(denial_value(pending_id, resolved_by, reason)),
    }
}

/// How a live run comes to a gate.
#[derive(Debug)]
pub enum GateStep {
    /// Nothing is to be decided.
    Open,
    /// A decision was there already.
    Settled { event: GateEvent, outcome: GateOutcome },
    /// The request is recorded and a decision is asked for.
    Ask { event: GateEvent, pending: ApprovalRequest },
}

/// The model of a gate step.
pub enum GateStepV {
    Open,
    Settled { event: GateEventV, outcome: GateOutcomeV },
    Ask { event: GateEventV, pending: ApprovalRequestV },
}

impl GateStep {
    pub open spec fn view(&self) -> GateStepV {
        match self {
            GateStep::Open => GateStepV::Open,
            GateStep::Settled { event, outcome } => GateStepV::Settled {
                event: event@,
                outcome: outcome@,
            },
            GateStep::Ask { event, pending } => GateStepV::Ask {
                event: event@,
                pending: pending@,
            },
        }
    }
}

/// How a live run comes to a gate: an effect that is not gated goes on; a
/// decision made before is recorded and followed; otherwise one is asked for.
pub open spec fn reached(
    run_id: Seq<char>,
    location: EffectLocationV,
    kind: ApprovalKind,
    request: JsonV,
    gated: bool,
    resolution: Option<ApprovalResolutionV>,
) -> GateStepV {
    let pending_id = pending_id(run_id, location.effect_id);
    if !gated {
        GateStepV::Open
    } else {
        match resolution {
            Some(x) => GateStepV::Settled {
                event: GateEventV::Resolved {
                    pending_id,
                    effect_id: location.effect_id,
                    kind,
                    decision: x.decision.text(),
                    resolved_by: x.resolved_by,
                    reason: x.reason,
                },
                outcome: decided(x.decision, pending_id, x.resolved_by, x.reason),
            },
            None => GateStepV::Ask {
                event: GateEventV::Requested { pending_id, kind, request, effect: location },
                pending: ApprovalRequestV { pending_id, effect: location, kind, request },
            },
        }
    }
}

/// The model of an optional resolution.
pub open spec fn opt_resolution(x: Option<&ApprovalResolution>) -> Option<ApprovalResolutionV> {
    match x {
        Some(v) => Some(v@),
        None => None,
    }
}

/// How a live run comes to a gate.
pub fn reach_gate(
    run_id: &str,
    location: &EffectLocation,
    kind: ApprovalKind,
    request: Json,
    gated: bool,
    resolution: Option<&ApprovalResolution>,
) -> (r: GateStep)
    ensures
        r@ == reached(run_id@, location@, kind, request@, gated, opt_resolution(resolution)),
{
    if !gated {
        return GateStep::Open;
    }
    let pending_id = pending_id_for(run_id, location.effect_id.as_str());
    match resolution {
        Some(x) => {
            let outcome = decide(x.decision, pending_id.as_str(), &x.resolved_by, &x.reason);
            let event = GateEvent::Resolved {
                pending_id,
                effect_id: location.effect_id.clone(),
                kind,
                decision: x.decision.as_status_str().to_owned(),
                resolved_by: copy_opt(&x.resolved_by),
                reason: copy_opt(&x.reason),
            };
            GateStep::Settled { event, outcome }
        },
        None => {
            let event = GateEvent::Requested {
                pending_id: pending_id.clone(),
                kind,
                request: request.clone(),
                effect: location.clone(),
            };
            let pending = ApprovalRequest { pending_id, effect: location.clone(), kind, request };
            GateStep::Ask { event, pending }
        },
    }
}

/// What comes of asking: the answer is recorded and followed, and without
/// one the machine waits.
pub open spec fn answered(pending: ApprovalRequestV, answer: Option<ApprovalDecision>) -> (
    Option<GateEventV>,
    GateOutcomeV,
) {
    match answer {
        Some(decision) => (
            Some(
                GateEventV::Resolved {
                    pending_id: pending.pending_id,
                    effect_id: pending.effect.effect_id,
                    kind: pending.kind,
                    decision: decision.text(),
                    resolved_by: Some("hook"@),
                    reason: None,
                },
            ),
            decided(decision, pending.pending_id, Some("hook"@), None),
        ),
        None => (None, GateOutcomeV::Pause(pending)),
    }
}

/// What comes of asking for a decision.
pub fn after_answer(pending: ApprovalRequest, answer: Option<ApprovalDecision>) -> (r: (
    Option<GateEvent>,
    GateOutcome,
))
    ensures
        ({
            let goal = answered(pending@, answer);
            &&& r.1@ == goal.1
            &&& match r.0 {
                Some(e) => goal.0 == Some(e@),
                None => goal.0 is None,
            }
        }),
{
    match answer {
        Some(decision) => {
            let hook = Some("hook".to_owned());
            let outcome = decide(decision, pending.pending_id.as_str(), &hook, &None);
            let event = GateEvent::Resolved {
                pending_id: pending.pending_id,
                effect_id: pending.effect.effect_id,
                kind: pending.kind,
                decision: decision.as_status_str().to_owned(),
                resolved_by: hook,
                reason: None,
            };
            (Some(event), outcome)
        },
        None => (None, GateOutcome::Pause(pending)),
    }
}

/// How a replay passes a gate: the recording is the sole authority.  What was
/// asked must be what is asked now, and the recorded decision, or the
/// recorded wait, is reproduced.
pub open spec fn replayed(
    t: IrReplayTraceV,
    location: EffectLocationV,
    kind: ApprovalKind,
    request: JsonV,
    gated: bool,
) -> Result<(Seq<GateEventV>, GateOutcomeV), ReplayErrorV> {
    let id = location.effect_id;
    let asked = t.approval_requests.dom().contains(id);
    let resolved = t.approval_resolutions.dom().contains(id);
    if !asked && !resolved {
        if gated {
            Err(ReplayErrorV::NoApproval { effect_id: id })
        } else {
            Ok((Seq::empty(), GateOutcomeV::Proceed))
        }
    } else if asked && !json::same(t.approval_requests[id].request, request) {
        Err(
            ReplayErrorV::RequestDiverged {
                effect_id: id,
                recorded: t.approval_requests[id].request,
                observed: request,
            },
        )
    } else {
        let pending_id = if asked {
            t.approval_requests[id].pending_id
        } else {
            t.approval_resolutions[id].pending_id
        };
        let asking = GateEventV::Requested { pending_id, kind, request, effect: location };
        if !resolved {
            Ok(
                (
                    seq![asking],
                    GateOutcomeV::Pause(
                        ApprovalRequestV { pending_id, effect: location, kind, request },
                    ),
                ),
            )
        } else {
            let x = t.approval_resolutions[id];
            let resolving = GateEventV::Resolved {
                pending_id,
                effect_id: id,
                kind,
                decision: x.decision,
                resolved_by: x.resolved_by,
                reason: x.reason,
            };
            Ok(
                (
                    seq![asking, resolving],
                    if x.decision == "denied"@ {
                        GateOutcomeV::Deny(denial(pending_id, x.resolved_by, x.reason))
                    } else {
                        GateOutcomeV::Proceed
                    },
                ),
            )
        }
    }
}

/// How a replay passes a gate.
pub fn replay_gate(
    recording: &IrReplayTrace,
    location: &EffectLocation,
    kind: ApprovalKind,
    request: Json,
    gated: bool,
) -> (r: Result<(Vec<GateEvent>, GateOutcome), ReplayError>)
    ensures
        match (r, replayed(recording@, location@, kind, request@, gated)) {
            (Ok(a), Ok(b)) => gate_events(a.0@) == b.0 && a.1@ == b.1,
            (Err(a), Err(b)) => a@ == b,
            _ => false,
        },
{
    let id = &location.effect_id;
    let asked = get_entry(&recording.approval_requests, id.as_str());
    let resolution = get_entry(&recording.approval_resolutions, id.as_str());
    let mut events: Vec<GateEvent> = Vec::new();
    let pending_id = match (asked, resolution) {
        (None, None) => {
            if gated {
                return Err(ReplayError::NoApproval { effect_id: id.clone() });
            }
            assert(gate_events(events@) =~= Seq::empty());
            return Ok((events, GateOutcome::Proceed));
        },
        (Some(asked), _) => {
            if !same_json(&asked.request, &request) {
                return Err(
                    ReplayError::RequestDiverged {
                        effect_id: id.clone(),
                        recorded: asked.request.clone(),
                        observed: request,
                    },
                );
            }
            asked.pending_id.clone()
        },
        (None, Some(resolution)) => resolution.pending_id.clone(),
    };
    events.push(
        GateEvent::Requested {
            pending_id: pending_id.clone(),
            kind,
            request: request.clone(),
            effect: location.clone(),
        },
    );
    match resolution {
        None => {
            assert(gate_events(events@) =~= seq![events@[0]@]);
            let pending = ApprovalRequest { pending_id, effect: location.clone(), kind, request };
            Ok((events, GateOutcome::Pause(pending)))
        },
        Some(x) => {
            events.push(
                GateEvent::Resolved {
                    pending_id: pending_id.clone(),
                    effect_id: id.clone(),
                    kind,
                    decision: x.decision.clone(),
                    resolved_by: copy_opt(&x.resolved_by),
                    reason: copy_opt(&x.reason),
                },
            );
            assert(gate_events(events@) =~= seq![events@[0]@, events@[1]@]);
            let outcome = if same_text(x.decision.as_str(), "denied") {
                GateOutcome::Deny(denial_value(pending_id.as_str(), &x.resolved_by, &x.reason))
            } else {
                GateOutcome::Proceed
            };
            Ok((events, outcome))
        },
    }
}

/// A gated effect is never carried out on its own: it goes on only where a
/// decision to approve it was there before, and where nobody decides the
/// machine waits.
pub proof fn gates_fail_closed(
    run_id: Seq<char>,
    location: EffectLocationV,
    kind: ApprovalKind,
    request: JsonV,
    resolution: Option<ApprovalResolutionV>,
    answer: Option<ApprovalDecision>,
)
    ensures
        match reached(run_id, location, kind, request, true, resolution) {
            GateStepV::Open => false,
            GateStepV::Settled { outcome, .. } => outcome is Proceed ==> resolution is Some
                && resolution->0.decision == ApprovalDecision::Approve,
            GateStepV::Ask { pending, .. } => {
                &&& answered(pending, answer).1 is Proceed ==> answer == Some(
                    ApprovalDecision::Approve,
                )
                &&& answered(pending, None).1 == GateOutcomeV::Pause(pending)
            },
        },
{
}

/// Denial is a value: what a denied effect results in is a denial, and says
/// that nothing was done.
pub proof fn denial_is_a_value(
    pending_id: Seq<char>,
    resolved_by: Option<Seq<char>>,
    reason: Option<Seq<char>>,
)
    ensures
        is_denial(denial(pending_id, resolved_by, reason)),
        denial(pending_id, resolved_by, reason).field("ok"@) == Some(JsonV::Bool(false)),
        match denial(pending_id, resolved_by, reason).field("approval"@) {
            Some(story) => story.field("reason"@) == Some(opt_text_json(reason)),
            None => false,
        },
{
    reveal_strlit("approval");
    reveal_strlit("error");
    reveal_strlit("ok");
    reveal_strlit("pending_id");
    reveal_strlit("reason");
    reveal_strlit("resolved_by");
    reveal_strlit("status");
    reveal_with_fuel(json::lookup, 5);
    assert("reason"@[0] != "status"@[0]);
    assert("approval"@.len() != "ok"@.len());
    assert("error"@.len() != "ok"@.len());
    assert("pending_id"@.len() != "status"@.len());
    assert("resolved_by"@.len() != "status"@.len());
    let v = denial(pending_id, resolved_by, reason);
    let f = v->Object_0;
    assert(f.skip(1).skip(1)[0] == f[2]);
    assert(f.skip(1)[0] == f[1]);
    let story = f[0].1;
    let g = story->Object_0;
    assert(g.skip(1)[0] == g[1]);
    assert(g.skip(1).skip(1)[0] == g[2]);
    assert(g.skip(1).skip(1).skip(1)[0] == g[3]);
}

/// A replay neither asks nor decides: a recorded decision settles a gate
/// without a wait, and a gated effect without a recorded story is not
/// carried out.
pub proof fn replay_is_bound_to_the_recording(
    t: IrReplayTraceV,
    location: EffectLocationV,
    kind: ApprovalKind,
    request: JsonV,
)
    ensures
        t.approval_resolutions.dom().contains(location.effect_id) ==> match replayed(
            t,
            location,
            kind,
            request,
            true,
        ) {
            Ok((_, outcome)) => !(outcome is Pause) && (outcome is Proceed
                <==> t.approval_resolutions[location.effect_id].decision != "denied"@),
            Err(e) => e is RequestDiverged,
        },
        !t.approval_resolutions.dom().contains(location.effect_id) ==> !(replayed(
            t,
            location,
            kind,
            request,
            true,
        ) matches Ok((_, GateOutcomeV::Proceed))),
{
}

/// What a live run with a decision records is replayed with the same
/// outcome.
pub proof fn decisions_are_reproduced(
    x: replay::IndexV,
    pending: ApprovalRequestV,
    decision: ApprovalDecision,
)
    ensures
        ({
            let id = pending.effect.effect_id;
            let t = IrReplayTraceV {
                approval_requests: x.trace.approval_requests.insert(
                    id,
                    replay::IrApprovalRequestedV {
                        pending_id: pending.pending_id,
                        kind: pending.kind.text(),
                        request: pending.request,
                    },
                ),
                approval_resolutions: x.trace.approval_resolutions.insert(
                    id,
                    replay::IrApprovalResolvedV {
                        pending_id: pending.pending_id,
                        decision: decision.text(),
                        resolved_by: Some("hook"@),
                        reason: None,
                    },
                ),
                ..x.trace
            };
            match replayed(t, pending.effect, pending.kind, pending.request, true) {
                Ok((_, outcome)) => outcome == answered(pending, Some(decision)).1,
                Err(_) => false,
            }
        }),
{
    json::same_reflexive(pending.request);
    reveal_strlit("approved");
    reveal_strlit("denied");
    assert("approved"@.len() != "denied"@.len());
}

} // verus!
