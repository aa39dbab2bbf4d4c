//! What a recorded gate does again, which names things go by, and what functions
//! give back that make or tell something small.
use crate::approval;
use crate::approval::{
    ApprovalDecision, ApprovalKind, ApprovalRequest, ApprovalRequestV, GateEventV, GateOutcomeV,
};
use crate::driver::Driver;
use crate::effect::EffectLocationV;
use crate::embedding::{EmbeddingIndex, EntryV};
use crate::interpreter;
use crate::interpreter::{InMemoryStore, IrStepOutcome, OutcomeV};
use crate::ir::EffectKind;
use crate::json;
use crate::json::{Json, JsonV};
use crate::memory::MemorySource;
use crate::models;
use crate::models::ModelError;
use crate::output_contract::OutputContract;
use crate::provider::{ProviderError, ProviderErrorV, ToolSpec};
use crate::replay::{IrReplayTraceV, ReplayErrorV};
use crate::temporal::TemporalSource;
use crate::text;
use crate::tool;
use crate::tool::{NativeTool, RegisterError};
use vstd::prelude::*;

verus! {

/// A recorded gate does again what it did: it asks under the recorded name, and
/// where a decision was recorded, it follows it, a denial with who gave it and why,
/// and anything else as an approval.
pub proof fn recorded_gates_decide_again(
    t: IrReplayTraceV,
    l: EffectLocationV,
    kind: ApprovalKind,
    request: JsonV,
    gated: bool,
)
    requires
        t.approval_requests.dom().contains(l.effect_id),
        json::same(t.approval_requests[l.effect_id].request, request),
    ensures
        approval::replayed(t, l, kind, request, gated) matches Ok((events, outcome)) && {
            let p = t.approval_requests[l.effect_id].pending_id;
            let asking = GateEventV::Requested { pending_id: p, kind, request, effect: l };
            &&& events.len() > 0 && events[0] == asking
            &&& !t.approval_resolutions.dom().contains(l.effect_id) ==> events.len() == 1 && outcome
                == GateOutcomeV::Pause(
                ApprovalRequestV { pending_id: p, effect: l, kind, request },
            )
            &&& t.approval_resolutions.dom().contains(l.effect_id) ==> {
                let x = t.approval_resolutions[l.effect_id];
                &&& events.len() == 2
                &&& events[1] == (GateEventV::Resolved {
                    pending_id: p,
                    effect_id: l.effect_id,
                    kind,
                    decision: x.decision,
                    resolved_by: x.resolved_by,
                    reason: x.reason,
                })
                &&& x.decision == "denied"@ ==> outcome == GateOutcomeV::Deny(
                    approval::denial(p, x.resolved_by, x.reason),
                )
                &&& x.decision != "denied"@ ==> outcome == GateOutcomeV::Proceed
            }
        },
{
}

/// Where nothing was recorded of a gate, an effect without one goes on and one with
/// a gate cannot be replayed; and a request that differs from the recorded one is
/// refused with both.
pub proof fn unrecorded_gates_are_refused(
    t: IrReplayTraceV,
    l: EffectLocationV,
    kind: ApprovalKind,
    request: JsonV,
)
    ensures
        !t.approval_requests.dom().contains(l.effect_id) && !t.approval_resolutions.dom().contains(
            l.effect_id,
        ) ==> (approval::replayed(t, l, kind, request, false) matches Ok((events, outcome))
            && events.len() == 0 && outcome == GateOutcomeV::Proceed) && (approval::replayed(
            t,
            l,
            kind,
            request,
            true,
        ) matches Err(e) && e == (ReplayErrorV::NoApproval { effect_id: l.effect_id })),
        t.approval_requests.dom().contains(l.effect_id) && !json::same(
            t.approval_requests[l.effect_id].request,
            request,
        ) ==> (approval::replayed(t, l, kind, request, true) matches Err(e) && e
            == (ReplayErrorV::RequestDiverged {
            effect_id: l.effect_id,
            recorded: t.approval_requests[l.effect_id].request,
            observed: request,
        })),
{
}

/// Kinds and decisions go by these names.
pub proof fn kinds_go_by_their_names()
    ensures
        EffectKind::Infer.text() == "Infer"@,
        EffectKind::Eval.text() == "Eval"@,
        EffectKind::Retrieve.text() == "Retrieve"@,
        EffectKind::Store.text() == "Store"@,
        EffectKind::Tool.text() == "Tool"@,
        ApprovalKind::Eval.text() == "eval"@,
        ApprovalKind::Store.text() == "store"@,
        ApprovalDecision::Approve.text() == "approved"@,
        ApprovalDecision::Deny.text() == "denied"@,
{
}

/// An effect that waits for a decision is told with its kind, its identity and what
/// it asks for.
pub proof fn waiting_effects_are_told(p: ApprovalRequestV)
    ensures
        interpreter::awaiting_text(p) == "gated "@ + p.kind.text() + " effect "@ + p.effect.effect_id
            + " requires approval and no resolver is configured; failing closed without executing it (request: "@
            + json::json_text(p.request) + ")"@,
{
}

/// A run stops with a snapshot of its store, and cannot without.
pub proof fn runs_stop_with_a_snapshot(
    d: Driver,
    snapshot: Option<InMemoryStore>,
    pending: ApprovalRequest,
    a: Result<IrStepOutcome, String>,
    b: Result<IrStepOutcome, String>,
)
    requires
        call_ensures(Driver::suspended, (d, snapshot), a),
        call_ensures(Driver::waiting, (d, pending, snapshot), b),
    ensures
        snapshot is None ==> a is Err && b is Err,
        snapshot matches Some(s) ==> (a matches Ok(x) && x@ matches OutcomeV::Suspended(c)
            && c.machine == d@.machine && c.store == s@),
        snapshot matches Some(s) ==> (b matches Ok(x) && x@ matches OutcomeV::AwaitingApproval(c, p)
            && c.machine == d@.machine && c.store == s@ && p == pending@),
{
}

/// A failed inference is tried on a smaller prompt only while all of this holds: the
/// run is live, collecting is on, the prompt did not fit, and not all cycles are
/// used.
pub proof fn prompts_shrink_only_on_overflow(
    live: bool,
    active: bool,
    overflow: bool,
    cycles: usize,
    max_cycles: usize,
    r: bool,
)
    requires
        call_ensures(
            interpreter::collects_again,
            (live, active, overflow, cycles, max_cycles),
            r,
        ),
    ensures
        !live ==> !r,
        !active ==> !r,
        !overflow ==> !r,
        cycles >= max_cycles ==> !r,
        live && active && overflow && cycles < max_cycles ==> r,
{
}

/// Vectors are kept for one model: of another model's none is taken over.
pub proof fn vectors_are_kept_by_model(kept: Option<EmbeddingIndex>, model: &str, r: EmbeddingIndex)
    requires
        call_ensures(EmbeddingIndex::of_model, (kept, model), r),
    ensures
        r@.model == model@,
        kept is None ==> r@.vectors == Map::<Seq<char>, EntryV>::empty(),
        kept matches Some(x) ==> (x@.model == model@ ==> r@.vectors == x@.vectors) && (x@.model
            != model@ ==> r@.vectors == Map::<Seq<char>, EntryV>::empty()),
{
}

/// What is wrong with the key of a model is said with the variable that it names.
pub proof fn key_errors_are_told(e: &ModelError, r: String, n: usize)
    requires
        call_ensures(ModelError::message, (e,), r),
        call_ensures(models::default_context, (), n),
    ensures
        e matches ModelError::Unset(name) ==> r@ == "resolving model api_key env var "@ + name@,
        e is EmptyReference ==> r@ == "empty environment variable reference in model api_key"@,
        n == 200_000,
{
}

/// Tools, sources, contracts and failures keep what they are made of, each part in
/// its place.
pub proof fn things_keep_what_they_are_made_of(
    name: String,
    description: String,
    parameters: Json,
    spec: ToolSpec,
    native: NativeTool,
    recent: TemporalSource,
    known: MemorySource,
    contract: OutputContract,
    failure: ProviderError,
)
    requires
        call_ensures(ToolSpec::function, (name, description, parameters), spec),
        call_ensures(NativeTool::new, (name, description, parameters), native),
        call_ensures(TemporalSource::new, (name,), recent),
        call_ensures(MemorySource::new, (name,), known),
        call_ensures(OutputContract::new, (parameters,), contract),
        call_ensures(ProviderError::transport, (name,), failure),
    ensures
        spec@.kind == "function"@,
        spec@.function.name == name@,
        spec@.function.description == description@,
        spec@.function.parameters == parameters@,
        native@.name == name@,
        native@.description == description@,
        native@.parameters == parameters@,
        recent.root@ == name@ && recent.max_turns == 20 && recent.max_bytes == 8192,
        known.root@ == name@ && known.max_bytes == 16384,
        contract.schema@ == parameters@ && contract.max_repairs == 2,
        failure@ matches ProviderErrorV::Transport { message, context } && message == name@
            && context == "provider request failed"@,
{
}

/// A tool that cannot be registered is told with its name and why.
pub proof fn refused_tools_are_told(name: String)
    ensures
        tool::register_error_text(RegisterError::Empty) == "native tool name must be non-empty"@,
        tool::register_error_text(RegisterError::Reserved(name)) == "native tool name "@
            + text::quoted(name@)
            + " is reserved by a built-in tool (shell, infer, remember, recall)"@,
        tool::register_error_text(RegisterError::Duplicate(name)) == "native tool "@ + text::quoted(
            name@,
        ) + " is already registered"@,
{
}

/// A request goes by a name that is made of its run and its effect, in this order:
/// the start of their digest behind a tag.
pub proof fn requests_go_by_run_and_effect(run: Seq<char>, id: Seq<char>)
    ensures
        approval::pending_id(run, id) == "pa-"@ + text::prefix(
            crate::digest::text_digest(run + ":"@ + id),
            16,
        ),
        approval::pending_id(run, id).len() <= 19,
{
    reveal_strlit("pa-");
}

} // verus!
