//! How a recording is indexed, and with which words a replay fails.
use crate::digest;
use crate::effect;
use crate::effect::{ControlPathV, DynamicPathV, EffectLocationV, EffectSite};
use crate::ir::EffectKind;
use crate::json;
use crate::json::JsonV;
use crate::naming::mark;
use crate::form_laws::stands_at;
use crate::replay;
use crate::replay::{
    IndexV, IrEvalCallV, IrInferCallV, IrReplayTraceV, IrRetrieveCallV, IrStoreCallV, IrToolCallV,
    ReplayErrorV,
};
use crate::text;
use crate::trace::EventV;
use vstd::prelude::*;

verus! {

/// A call is kept under the effect that it carries, with all that tells it from
/// another call, and its operation is known from then on.
pub proof fn calls_are_kept_under_their_effect(x: IndexV, e: EventV)
    ensures
        match e {
            EventV::InferCall { op_id, model, effect: Some(l), .. } => l.kind == EffectKind::Infer
                ==> (replay::record(x, e) matches Ok(y) && y.ops.dom().contains(op_id)
                && y.ops[op_id] == l.effect_id && y.trace.infer_calls.dom().contains(l.effect_id)
                && y.trace.infer_calls[l.effect_id].model == model
                && y.trace.infer_calls[l.effect_id].location == l && y.early == x.early),
            EventV::EvalCall { op_id, command, argv, effect: Some(l), .. } => l.kind
                == EffectKind::Eval ==> (replay::record(x, e) matches Ok(y)
                && y.ops.dom().contains(op_id) && y.ops[op_id] == l.effect_id
                && y.trace.eval_calls.dom().contains(l.effect_id)
                && y.trace.eval_calls[l.effect_id].command == command
                && y.trace.eval_calls[l.effect_id].argv == argv
                && y.trace.eval_calls[l.effect_id].location == l),
            EventV::RetrieveCall { op_id, query, kind, max_bytes, effect: Some(l), .. } => l.kind
                == EffectKind::Retrieve ==> (replay::record(x, e) matches Ok(y)
                && y.ops.dom().contains(op_id) && y.ops[op_id] == l.effect_id
                && y.trace.retrieve_calls.dom().contains(l.effect_id)
                && y.trace.retrieve_calls[l.effect_id].query == query
                && y.trace.retrieve_calls[l.effect_id].kind == kind
                && y.trace.retrieve_calls[l.effect_id].max_bytes == max_bytes),
            EventV::StoreCall { op_id, sink, store_op, store_id, content_hash, effect: Some(l), .. } =>
            l.kind == EffectKind::Store ==> (replay::record(x, e) matches Ok(y)
                && y.ops.dom().contains(op_id) && y.ops[op_id] == l.effect_id
                && y.trace.store_calls.dom().contains(l.effect_id)
                && y.trace.store_calls[l.effect_id].sink == sink
                && y.trace.store_calls[l.effect_id].op == store_op
                && y.trace.store_calls[l.effect_id].id == store_id
                && y.trace.store_calls[l.effect_id].content_hash == content_hash),
            EventV::ToolCall { op_id, name, arguments, effect: Some(l), .. } => l.kind
                == EffectKind::Tool ==> (replay::record(x, e) matches Ok(y)
                && y.ops.dom().contains(op_id) && y.ops[op_id] == l.effect_id
                && y.trace.tool_calls.dom().contains(l.effect_id)
                && y.trace.tool_calls[l.effect_id].name == name
                && y.trace.tool_calls[l.effect_id].arguments == arguments
                && y.trace.tool_calls[l.effect_id].location == l),
            _ => true,
        },
{
}

/// A call without an effect cannot be replayed, nor one with an effect of another
/// kind; either is told with the operation that it is about.
pub proof fn calls_need_an_effect(x: IndexV, e: EventV)
    ensures
        match e {
            EventV::InferCall { op_id, effect, .. } => is_refused(x, e, op_id, effect, EffectKind::Infer),
            EventV::EvalCall { op_id, effect, .. } => is_refused(x, e, op_id, effect, EffectKind::Eval),
            EventV::RetrieveCall { op_id, effect, .. } => is_refused(
                x,
                e,
                op_id,
                effect,
                EffectKind::Retrieve,
            ),
            EventV::StoreCall { op_id, effect, .. } => is_refused(x, e, op_id, effect, EffectKind::Store),
            EventV::ToolCall { op_id, effect, .. } => is_refused(x, e, op_id, effect, EffectKind::Tool),
            _ => replay::record(x, e) is Ok,
        },
{
}

/// Whether an event is refused where it has no effect or one of another kind.
pub open spec fn is_refused(
    x: IndexV,
    e: EventV,
    op: u64,
    effect: Option<EffectLocationV>,
    wanted: EffectKind,
) -> bool {
    &&& effect is None ==> replay::record(x, e) == Err::<IndexV, ReplayErrorV>(
        ReplayErrorV::NoIdentity { kind: wanted, op_id: op },
    )
    &&& effect matches Some(l) ==> (l.kind != wanted ==> replay::record(x, e) == Err::<
        IndexV,
        ReplayErrorV,
    >(ReplayErrorV::WrongKind { expected: wanted, op_id: op, found: l }))
}

/// A result or an error of a known operation is kept under the effect of that
/// operation, among the results or the errors of its kind, and nothing else changes.
pub proof fn outcomes_are_kept_under_their_effect(x: IndexV, e: EventV, id: Seq<char>)
    requires
        replay::outcome_op(e) matches Some(o) && x.ops.dom().contains(o) && x.ops[o] == id,
    ensures
        replay::record(x, e) matches Ok(y) && y.ops == x.ops && y.early == x.early
            && y.trace.infer_calls == x.trace.infer_calls && y.trace.eval_calls
            == x.trace.eval_calls && y.trace.tool_calls == x.trace.tool_calls && match e {
            EventV::InferResult { response: Some(r), .. } => y.trace.infer_results
                == x.trace.infer_results.insert(id, r) && y.trace.infer_errors
                == x.trace.infer_errors,
            EventV::InferError { error, .. } => y.trace.infer_errors == x.trace.infer_errors.insert(
                id,
                error,
            ) && y.trace.infer_results == x.trace.infer_results,
            EventV::EvalResult { result, .. } => y.trace.eval_results
                == x.trace.eval_results.insert(id, result) && y.trace.tool_results
                == x.trace.tool_results,
            EventV::EvalError { error, .. } => y.trace.eval_errors == x.trace.eval_errors.insert(
                id,
                error,
            ),
            EventV::RetrieveResult { results, .. } => y.trace.retrieve_results
                == x.trace.retrieve_results.insert(id, results),
            EventV::RetrieveError { error, .. } => y.trace.retrieve_errors
                == x.trace.retrieve_errors.insert(id, error),
            EventV::StoreResult { sink_id, .. } => y.trace.store_results
                == x.trace.store_results.insert(id, sink_id),
            EventV::StoreError { error, .. } => y.trace.store_errors == x.trace.store_errors.insert(
                id,
                error,
            ),
            EventV::ToolResult { result, .. } => y.trace.tool_results
                == x.trace.tool_results.insert(id, result) && y.trace.eval_results
                == x.trace.eval_results,
            EventV::ToolError { error, .. } => y.trace.tool_errors == x.trace.tool_errors.insert(
                id,
                error,
            ),
            _ => true,
        },
{
}

/// An outcome of an operation that is not known yet is kept for later.
pub proof fn early_outcomes_wait(x: IndexV, e: EventV)
    requires
        replay::outcome_op(e) matches Some(o) && !x.ops.dom().contains(o),
        e is InferResult ==> e->InferResult_response is Some,
    ensures
        replay::record(x, e) matches Ok(y) && y.early == x.early.push(e) && y.trace == x.trace
            && y.ops == x.ops,
{
}

/// A request for approval is kept under its effect, and so is the decision on it;
/// the schema of a run is kept where its contract is recorded.
pub proof fn approvals_are_kept_under_their_effect(x: IndexV, e: EventV)
    ensures
        match e {
            EventV::ApprovalRequested { pending_id, kind, request, effect, .. } => replay::record(
                x,
                e,
            ) matches Ok(y) && y.trace.approval_requests.dom().contains(effect.effect_id)
                && y.trace.approval_requests[effect.effect_id].pending_id == pending_id
                && y.trace.approval_requests[effect.effect_id].kind == kind
                && y.trace.approval_requests[effect.effect_id].request == request
                && y.trace.approval_resolutions == x.trace.approval_resolutions,
            EventV::ApprovalResolved {
                pending_id,
                effect_id,
                decision,
                resolved_by,
                reason,
                ..
            } => replay::record(x, e) matches Ok(y) && y.trace.approval_resolutions.dom().contains(
                effect_id,
            ) && y.trace.approval_resolutions[effect_id].pending_id == pending_id
                && y.trace.approval_resolutions[effect_id].decision == decision
                && y.trace.approval_resolutions[effect_id].resolved_by == resolved_by
                && y.trace.approval_resolutions[effect_id].reason == reason
                && y.trace.approval_requests == x.trace.approval_requests,
            EventV::Custom { name, data, .. } => replay::record(x, e) matches Ok(y) && y.ops
                == x.ops && (name != "output_contract"@ ==> y == x) && (name == "output_contract"@
                ==> (data.field("schema_hash"@) matches Some(JsonV::Str(h)) ==> y.trace.output_schema
                == Some(h))),
            _ => true,
        },
{
}

/// Where a recording holds nothing of an effect, the call is missing; where it
/// holds a failure, the call fails again with its words; where it holds neither a
/// failure nor a result, the result is missing.
pub proof fn replays_fail_for_a_reason(
    t: IrReplayTraceV,
    l: EffectLocationV,
    s: Seq<char>,
    argv: Option<Seq<Seq<char>>>,
    q: IrRetrieveCallV,
    w: IrStoreCallV,
    a: JsonV,
)
    ensures
        ({
            let id = l.effect_id;
            &&& !t.infer_calls.dom().contains(id) ==> (replay::infer_answer(t, l, s) matches Err(e)
                && e == (ReplayErrorV::MissingCall { kind: EffectKind::Infer, location: l }))
            &&& !t.eval_calls.dom().contains(id) ==> (replay::eval_answer(t, l, s, argv) matches Err(
                e,
            ) && e == (ReplayErrorV::MissingCall { kind: EffectKind::Eval, location: l }))
            &&& !t.retrieve_calls.dom().contains(id) ==> (replay::retrieve_answer(
                t,
                l,
                q,
            ) matches Err(e) && e == (ReplayErrorV::MissingCall {
                kind: EffectKind::Retrieve,
                location: l,
            }))
            &&& !t.store_calls.dom().contains(id) ==> (replay::store_answer(t, l, w) matches Err(e)
                && e == (ReplayErrorV::MissingCall { kind: EffectKind::Store, location: l }))
            &&& !t.tool_calls.dom().contains(id) ==> (replay::tool_answer(t, l, s, a) matches Err(e)
                && e == (ReplayErrorV::MissingCall { kind: EffectKind::Tool, location: l }))
            &&& t.infer_calls.dom().contains(id) && t.infer_calls[id].model == s
                && t.infer_errors.dom().contains(id) ==> (replay::infer_answer(t, l, s) matches Err(
                e,
            ) && e == (ReplayErrorV::Failed {
                kind: EffectKind::Infer,
                effect_id: id,
                error: t.infer_errors[id],
            }))
            &&& t.tool_calls.dom().contains(id) && t.tool_calls[id].name == s && json::same(
                t.tool_calls[id].arguments,
                a,
            ) && t.tool_errors.dom().contains(id) ==> (replay::tool_answer(t, l, s, a) matches Err(
                e,
            ) && e == (ReplayErrorV::Failed {
                kind: EffectKind::Tool,
                effect_id: id,
                error: t.tool_errors[id],
            }))
            &&& t.store_calls.dom().contains(id) && t.store_calls[id] == w
                && t.store_errors.dom().contains(id) ==> (replay::store_answer(t, l, w) matches Err(
                e,
            ) && e == (ReplayErrorV::Failed {
                kind: EffectKind::Store,
                effect_id: id,
                error: t.store_errors[id],
            }))
            &&& t.retrieve_calls.dom().contains(id) && t.retrieve_calls[id] == q
                && t.retrieve_errors.dom().contains(id) ==> (replay::retrieve_answer(
                t,
                l,
                q,
            ) matches Err(e) && e == (ReplayErrorV::Failed {
                kind: EffectKind::Retrieve,
                effect_id: id,
                error: t.retrieve_errors[id],
            }))
            &&& t.eval_calls.dom().contains(id) && t.eval_calls[id].command == s
                && t.eval_calls[id].argv == argv && t.eval_errors.dom().contains(id) ==> (
            replay::eval_answer(t, l, s, argv) matches Err(e) && e == (ReplayErrorV::Failed {
                kind: EffectKind::Eval,
                effect_id: id,
                error: t.eval_errors[id],
            }))
        }),
{
}

/// A call that differs from the recorded one is told with both.
pub proof fn divergence_shows_both_sides(
    t: IrReplayTraceV,
    l: EffectLocationV,
    s: Seq<char>,
    argv: Option<Seq<Seq<char>>>,
    a: JsonV,
)
    ensures
        ({
            let id = l.effect_id;
            &&& t.infer_calls.dom().contains(id) && t.infer_calls[id].model != s ==> (
            replay::infer_answer(t, l, s) matches Err(e) && e == (ReplayErrorV::InferDiverged {
                effect_id: id,
                recorded: t.infer_calls[id],
                model: s,
            }))
            &&& t.eval_calls.dom().contains(id) && (t.eval_calls[id].command != s
                || t.eval_calls[id].argv != argv) ==> (replay::eval_answer(t, l, s, argv) matches Err(
                e,
            ) && e == (ReplayErrorV::EvalDiverged {
                effect_id: id,
                recorded: t.eval_calls[id],
                command: s,
                argv,
            }))
            &&& t.tool_calls.dom().contains(id) && (t.tool_calls[id].name != s || !json::same(
                t.tool_calls[id].arguments,
                a,
            )) ==> (replay::tool_answer(t, l, s, a) matches Err(e) && e
                == (ReplayErrorV::ToolDiverged {
                effect_id: id,
                recorded: t.tool_calls[id],
                name: s,
                arguments: a,
            }))
        }),
{
}

/// What a replay says of a difference: first what was recorded, then what was
/// observed.
pub proof fn divergence_is_told_in_words(
    id: Seq<char>,
    c: IrInferCallV,
    g: IrEvalCallV,
    h: IrToolCallV,
    s: Seq<char>,
    a: JsonV,
    b: JsonV,
    kind: EffectKind,
)
    ensures
        replay::replay_error_text(
            ReplayErrorV::InferDiverged { effect_id: id, recorded: c, model: s },
        ) == "AgentIR replay diverged at effect "@ + id + ": expected Infer model "@ + text::quoted(
            c.model,
        ) + " at "@ + replay::location_text(c.location) + ", observed "@ + text::quoted(s),
        replay::replay_error_text(
            ReplayErrorV::EvalDiverged { effect_id: id, recorded: g, command: s, argv: None },
        ) == "AgentIR replay diverged at effect "@ + id + ": expected Eval command "@
            + text::quoted(g.command) + " (argv "@ + replay::shown_argv(g.argv) + ") at "@
            + replay::location_text(g.location) + ", observed "@ + text::quoted(s) + " (argv "@
            + "None"@ + ")"@,
        replay::replay_error_text(
            ReplayErrorV::ToolDiverged { effect_id: id, recorded: h, name: s, arguments: a },
        ) == "AgentIR replay diverged at effect "@ + id + ": expected tool "@ + text::quoted(h.name)
            + " with arguments "@ + json::json_text(h.arguments) + " at "@ + replay::location_text(
            h.location,
        ) + ", observed "@ + text::quoted(s) + " with arguments "@ + json::json_text(a),
        replay::replay_error_text(
            ReplayErrorV::RequestDiverged { effect_id: id, recorded: a, observed: b },
        ) == "AgentIR replay diverged at effect "@ + id + ": recorded approval request "@
            + json::json_text(a) + " does not match observed request "@ + json::json_text(b),
        replay::replay_error_text(ReplayErrorV::Failed { kind, effect_id: id, error: s })
            == "AgentIR replaying recorded "@ + kind.text() + " failure at effect "@ + id + ": "@ + s,
        replay::replay_error_text(ReplayErrorV::MissingResult { kind, effect_id: id })
            == "AgentIR replay missing "@ + kind.text() + "Result for effect "@ + id,
{
}

/// Writes and retrievals that differ are shown with all that tells them apart.
pub proof fn recorded_calls_are_shown_whole(
    id: Seq<char>,
    q: IrRetrieveCallV,
    p: IrRetrieveCallV,
    w: IrStoreCallV,
    v: IrStoreCallV,
    n: usize,
    s: Seq<char>,
)
    ensures
        replay::replay_error_text(
            ReplayErrorV::RetrieveDiverged { effect_id: id, recorded: q, observed: p },
        ) == "AgentIR replay diverged at effect "@ + id + ": expected Retrieve "@
            + replay::shown_retrieve(q) + ", observed "@ + replay::shown_retrieve(p),
        replay::replay_error_text(
            ReplayErrorV::StoreDiverged { effect_id: id, recorded: w, observed: v },
        ) == "AgentIR replay diverged at effect "@ + id + ": expected Store "@ + replay::shown_store(
            w,
        ) + ", observed "@ + replay::shown_store(v),
        replay::shown_retrieve(q) == "IrRetrieveCall { query: "@ + text::quoted(q.query)
            + ", kind: "@ + replay::shown_opt(q.kind) + ", max_bytes: "@ + replay::shown_size(
            q.max_bytes,
        ) + " }"@,
        replay::shown_store(w) == "IrStoreCall { sink: "@ + text::quoted(w.sink) + ", op: "@
            + text::quoted(w.op) + ", id: "@ + replay::shown_opt(w.id) + ", content_hash: "@
            + text::quoted(w.content_hash) + " }"@,
        replay::shown_opt(None) == "None"@,
        replay::shown_opt(Some(s)) == "Some("@ + text::quoted(s) + ")"@,
        replay::shown_size(None) == "None"@,
        replay::shown_size(Some(n)) == "Some("@ + text::decimal(n as nat) + ")"@,
        replay::shown_argv(None) == "None"@,
        replay::shown_argv(Some(seq![s, id])) == "Some(["@ + (text::quoted(s) + ", "@ + text::quoted(
            id,
        )) + "])"@,
{
    let two = seq![s, id];
    assert(two.drop_last() =~= seq![s]);
    assert(replay::shown_items(seq![s]) == text::quoted(s));
}

/// An effect is placed by its block, its instruction, its visit, and the way to it.
pub proof fn places_are_told_in_words(l: EffectLocationV)
    ensures
        ({
            let head = "block BlockId("@ + text::decimal(l.site.block.0 as nat) + ") instruction "@
                + text::decimal(l.site.instruction_index as nat) + " (visit "@ + text::decimal(
                l.dynamic_path.visit as nat,
            ) + ", control path "@;
            &&& l.dynamic_path.path.len() == 0 ==> replay::location_text(l) =~= head + "entry)"@
            &&& l.dynamic_path.path.len() > 0 ==> replay::location_text(l) =~= head + text::prefix(
                l.dynamic_path.path,
                12,
            ) + "... after "@ + text::decimal(l.dynamic_path.transitions as nat)
                + " transitions)"@
        }),
{
    reveal_strlit("block BlockId(");
    reveal_strlit("block ");
    reveal_strlit("BlockId(");
    reveal_strlit(")");
    reveal_strlit(") instruction ");
    reveal_strlit(" instruction ");
    reveal_strlit("entry)");
    reveal_strlit("entry");
    reveal_strlit(" transitions)");
    reveal_strlit(" transitions");
}

/// A path grows by one step with each transition, and its digest is that of all
/// that went before with the block that is left, the arm that is taken and the
/// block that is entered.
pub proof fn paths_grow_by_transitions(p: ControlPathV, from: u32, arm: u32, to: u32, visit: u64)
    ensures
        ({
            let q = effect::transitioned(p, from, arm, to);
            &&& p.transitions < u64::MAX ==> q.transitions == p.transitions + 1
            &&& p.transitions == u64::MAX ==> q.transitions == u64::MAX
            &&& q.digest == digest::text_digest(
                p.digest + "|"@ + text::decimal(from as nat) + ":"@ + text::decimal(arm as nat)
                    + ":"@ + text::decimal(to as nat),
            )
        }),
        effect::path_at(p, visit).path == p.digest,
        effect::path_at(p, visit).transitions == p.transitions,
        effect::path_at(p, visit).visit == visit,
{
}

/// An effect is placed in its program by its kind, its site and its path, and its
/// identity is the digest of these, each under its name.
pub proof fn identities_are_made_of_the_place(
    hash: Seq<char>,
    kind: EffectKind,
    site: EffectSite,
    path: DynamicPathV,
)
    ensures
        ({
            let l = effect::located(hash, kind, site, path);
            &&& l.program_hash == hash && l.kind == kind && l.site == site && l.dynamic_path == path
            &&& l.effect_id == digest::tagged_digest(
                json::json_text(effect::identity_json(hash, kind, site, path)),
            )
        }),
        ({
            let v = effect::identity_json(hash, kind, site, path);
            &&& v.field("program_hash"@) == Some(JsonV::Str(hash))
            &&& v.field("kind"@) == Some(JsonV::Str(kind.text()))
            &&& v.field("site"@) matches Some(s) && s.field("block"@) == Some(
                JsonV::Int(site.block.0 as int),
            ) && s.field("instruction_index"@) == Some(JsonV::Int(site.instruction_index as int))
            &&& v.field("dynamic_path"@) matches Some(d) && d.field("path"@) == Some(
                JsonV::Str(path.path),
            ) && d.field("transitions"@) == Some(JsonV::Int(path.transitions as int)) && d.field(
                "visit"@,
            ) == Some(JsonV::Int(path.visit as int))
        }),
{
    reveal_strlit("program_hash");
    reveal_strlit("kind");
    reveal_strlit("site");
    reveal_strlit("dynamic_path");
    reveal_strlit("block");
    reveal_strlit("instruction_index");
    reveal_strlit("path");
    reveal_strlit("transitions");
    reveal_strlit("visit");
    assert(mark("program_hash"@) == (12nat, 'p', 'h', 'm'));
    assert(mark("kind"@) == (4nat, 'k', 'd', 'n'));
    assert(mark("site"@) == (4nat, 's', 'e', 't'));
    assert(mark("dynamic_path"@) == (12nat, 'd', 'h', 'c'));
    assert(mark("block"@) == (5nat, 'b', 'k', 'o'));
    assert(mark("instruction_index"@) == (17nat, 'i', 'x', 'i'));
    assert(mark("path"@) == (4nat, 'p', 'h', 't'));
    assert(mark("transitions"@) == (11nat, 't', 's', 'i'));
    assert(mark("visit"@) == (5nat, 'v', 't', 's'));
    let f = effect::identity_json(hash, kind, site, path)->Object_0;
    stands_at(f, 0);
    stands_at(f, 1);
    stands_at(f, 2);
    stands_at(f, 3);
    let s = f[2].1->Object_0;
    stands_at(s, 0);
    stands_at(s, 1);
    let d = f[3].1->Object_0;
    stands_at(d, 0);
    stands_at(d, 1);
    stands_at(d, 2);
}

/// The digest of a text is that of its bytes, and its tag says how it was made.
pub proof fn digests_are_tagged(s: Seq<char>)
    ensures
        digest::tagged_digest(s) == "sha256:"@ + digest::text_digest(s),
        digest::text_digest(s) == digest::sha256_hex(vstd::utf8::encode_utf8(s)),
{
}

} // verus!
