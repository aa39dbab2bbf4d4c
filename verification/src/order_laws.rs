//! The order of a recording does not matter: however the events of an orderly
//! run are put, they are indexed alike.
use crate::replay;
use crate::replay::{
    IndexV, IrApprovalRequestedV, IrApprovalResolvedV, IrEvalCallV, IrInferCallV,
    IrReplayTraceV, IrRetrieveCallV, IrStoreCallV, IrToolCallV, ReplayErrorV,
};
use crate::trace::EventV;
use vstd::prelude::*;

verus! {

/// Whether an event names the schema that the output is held to.
pub open spec fn names_schema(e: EventV) -> bool {
    e matches EventV::Custom { name, data, .. } && name == "output_contract"@ && data.text_field(
        "schema_hash"@,
    ) is Some
}

/// Whether two events can stand in one orderly recording: no two calls share
/// an operation or an effect, no two outcomes an operation, no two approvals
/// of a kind an effect, and the schema is named once.
pub open spec fn compatible(p: EventV, q: EventV) -> bool {
    &&& replay::call_op(p) is Some && replay::call_op(q) is Some ==> {
        &&& replay::call_op(p) != replay::call_op(q)
        &&& (replay::call_effect(p)->0).effect_id != (replay::call_effect(q)->0).effect_id
    }
    &&& replay::outcome_op(p) is Some && replay::outcome_op(q) is Some ==> replay::outcome_op(p)
        != replay::outcome_op(q)
    &&& p is ApprovalRequested && q is ApprovalRequested ==> (
    p->ApprovalRequested_effect).effect_id != (q->ApprovalRequested_effect).effect_id
    &&& p is ApprovalResolved && q is ApprovalResolved ==> p->ApprovalResolved_effect_id
        != q->ApprovalResolved_effect_id
    &&& !(names_schema(p) && names_schema(q))
}

/// Whether a call carries an effect of its own kind.
pub open spec fn is_fit(e: EventV) -> bool {
    replay::call_op(e) is Some ==> replay::record(replay::blank(), e) is Ok
}

/// Whether a recording is orderly.
pub open spec fn orderly(events: Seq<EventV>) -> bool {
    &&& forall|i: int| 0 <= i < events.len() ==> is_fit(#[trigger] events[i])
    &&& forall|i: int, j: int|
        0 <= i < events.len() && 0 <= j < events.len() && i != j ==> compatible(
            #[trigger] events[i],
            #[trigger] events[j],
        )
}

spec fn set_if<V>(m: Map<Seq<char>, V>, b: bool, key: Seq<char>, v: V) -> Map<Seq<char>, V> {
    if b {
        m.insert(key, v)
    } else {
        m
    }
}

/// The index after one more event that is no outcome, table by table.
spec fn entered(x: IndexV, e: EventV) -> IndexV {
    let l = replay::call_effect(e)->0;
    let id = l.effect_id;
    IndexV {
        trace: IrReplayTraceV {
            infer_calls: set_if(
                x.trace.infer_calls,
                e is InferCall,
                id,
                IrInferCallV { location: l, model: e->InferCall_model },
            ),
            eval_calls: set_if(
                x.trace.eval_calls,
                e is EvalCall,
                id,
                IrEvalCallV { location: l, command: e->EvalCall_command, argv: e->EvalCall_argv },
            ),
            retrieve_calls: set_if(
                x.trace.retrieve_calls,
                e is RetrieveCall,
                id,
                IrRetrieveCallV {
                    query: e->RetrieveCall_query,
                    kind: e->RetrieveCall_kind,
                    max_bytes: e->RetrieveCall_max_bytes,
                },
            ),
            store_calls: set_if(
                x.trace.store_calls,
                e is StoreCall,
                id,
                IrStoreCallV {
                    sink: e->StoreCall_sink,
                    op: e->StoreCall_store_op,
                    id: e->StoreCall_store_id,
                    content_hash: e->StoreCall_content_hash,
                },
            ),
            tool_calls: set_if(
                x.trace.tool_calls,
                e is ToolCall,
                id,
                IrToolCallV {
                    location: l,
                    name: e->ToolCall_name,
                    arguments: e->ToolCall_arguments,
                },
            ),
            approval_requests: set_if(
                x.trace.approval_requests,
                e is ApprovalRequested,
                (e->ApprovalRequested_effect).effect_id,
                IrApprovalRequestedV {
                    pending_id: e->ApprovalRequested_pending_id,
                    kind: e->ApprovalRequested_kind,
                    request: e->ApprovalRequested_request,
                },
            ),
            approval_resolutions: set_if(
                x.trace.approval_resolutions,
                e is ApprovalResolved,
                e->ApprovalResolved_effect_id,
                IrApprovalResolvedV {
                    pending_id: e->ApprovalResolved_pending_id,
                    decision: e->ApprovalResolved_decision,
                    resolved_by: e->ApprovalResolved_resolved_by,
                    reason: e->ApprovalResolved_reason,
                },
            ),
            output_schema: if names_schema(e) {
                (e->Custom_data).text_field("schema_hash"@)
            } else {
                x.trace.output_schema
            },
            ..x.trace
        },
        ops: if replay::call_op(e) is Some {
            x.ops.insert(replay::call_op(e)->0, id)
        } else {
            x.ops
        },
        early: x.early,
    }
}

proof fn others_are_entered(x: IndexV, e: EventV)
    requires
        is_fit(e),
        replay::outcome_op(e) is None,
    ensures
        replay::record(x, e) == Ok::<IndexV, ReplayErrorV>(entered(x, e)),
        replay::call_op(e) is Some ==> replay::call_effect(e) is Some,
{
}

/// The index after one more event.
spec fn taken(x: IndexV, e: EventV) -> IndexV {
    if replay::outcome_op(e) is Some {
        replay::noted(x, e)
    } else {
        entered(x, e)
    }
}

proof fn fit_events_are_taken(x: IndexV, e: EventV)
    requires
        is_fit(e),
    ensures
        replay::record(x, e) == Ok::<IndexV, ReplayErrorV>(taken(x, e)),
{
    if replay::outcome_op(e) is Some {
        replay::outcomes_are_noted(x, e);
    } else {
        others_are_entered(x, e);
    }
}

proof fn entries_commute(x: IndexV, p: EventV, q: EventV)
    requires
        compatible(p, q),
        replay::outcome_op(p) is None,
        replay::outcome_op(q) is None,
    ensures
        entered(entered(x, p), q) == entered(entered(x, q), p),
{
    let a = entered(entered(x, p), q);
    let b = entered(entered(x, q), p);
    assert(a.trace.infer_calls =~= b.trace.infer_calls);
    assert(a.trace.eval_calls =~= b.trace.eval_calls);
    assert(a.trace.retrieve_calls =~= b.trace.retrieve_calls);
    assert(a.trace.store_calls =~= b.trace.store_calls);
    assert(a.trace.tool_calls =~= b.trace.tool_calls);
    assert(a.trace.approval_requests =~= b.trace.approval_requests);
    assert(a.trace.approval_resolutions =~= b.trace.approval_resolutions);
    assert(a.ops =~= b.ops);
    assert(a.trace == b.trace);
}

proof fn entry_and_outcome_commute(x: IndexV, p: EventV, q: EventV)
    requires
        replay::outcome_op(p) is None,
        replay::outcome_op(q) is Some,
        replay::call_op(p) != replay::outcome_op(q),
    ensures
        replay::noted(entered(x, p), q) == entered(replay::noted(x, q), p),
{
    let op = replay::outcome_op(q)->0;
    assert(entered(x, p).ops.dom().contains(op) == x.ops.dom().contains(op));
    assert(x.ops.dom().contains(op) ==> entered(x, p).ops[op] == x.ops[op]);
    let a = replay::noted(entered(x, p), q);
    let b = entered(replay::noted(x, q), p);
    assert(a.trace == b.trace);
    assert(a.ops == b.ops);
    assert(a.early == b.early);
}

/// Whether no two operations carried out one effect.
spec fn apart(ops: Map<u64, Seq<char>>) -> bool {
    forall|a: u64, b: u64|
        #![trigger ops.dom().contains(a), ops.dom().contains(b)]
        ops.dom().contains(a) && ops.dom().contains(b) && a != b ==> ops[a] != ops[b]
}

/// Two events that are no call and its outcome may change places, but for the
/// order in which they are put aside.
proof fn events_commute(x: IndexV, p: EventV, q: EventV)
    requires
        is_fit(p),
        is_fit(q),
        compatible(p, q),
        apart(x.ops),
        replay::call_op(p) is None || replay::call_op(p) != replay::outcome_op(q),
        replay::call_op(q) is None || replay::call_op(q) != replay::outcome_op(p),
    ensures
        ({
            let a = taken(taken(x, p), q);
            let b = taken(taken(x, q), p);
            ||| a == b
            ||| {
                &&& a.trace == b.trace && a.ops == b.ops && a.ops == x.ops
                &&& replay::outcome_op(p) is Some && replay::outcome_op(q) is Some
                &&& a.early == x.early + seq![p, q]
                &&& b.early == x.early + seq![q, p]
            }
        }),
{
    let op = replay::outcome_op(p);
    let oq = replay::outcome_op(q);
    if op is None && oq is None {
        entries_commute(x, p, q);
    } else if op is None {
        entry_and_outcome_commute(x, p, q);
    } else if oq is None {
        entry_and_outcome_commute(x, q, p);
    } else {
        if replay::is_known(x, p) || replay::is_known(x, q) {
            replay::outcomes_of_different_effects_commute(x, p, q);
            replay::outcomes_are_noted(x, p);
            replay::outcomes_are_noted(x, q);
            replay::outcomes_are_noted(replay::noted(x, p), q);
            replay::outcomes_are_noted(replay::noted(x, q), p);
        } else {
            let a = taken(taken(x, p), q);
            let b = taken(taken(x, q), p);
            assert(a.trace == x.trace && b.trace == x.trace);
            if replay::says_something(p) && replay::says_something(q) {
                assert(a.early =~= x.early + seq![p, q]);
                assert(b.early =~= x.early + seq![q, p]);
            } else {
                assert(a.early =~= b.early);
            }
        }
    }
}

/// What an index of an orderly recording knows: every operation and its effect
/// stand in a call, and what was put aside are outcomes.
spec fn is_index_of(x: IndexV, events: Seq<EventV>) -> bool {
    &&& forall|o: u64| #[trigger] x.ops.dom().contains(o) ==> calls_effect(events, o, x.ops[o])
    &&& forall|i: int| 0 <= i < x.early.len() ==> replay::outcome_op(#[trigger] x.early[i]) is Some
}

spec fn calls_effect(events: Seq<EventV>, o: u64, id: Seq<char>) -> bool {
    exists|i: int|
        0 <= i < events.len() && replay::call_op(#[trigger] events[i]) == Some(o) && (
        replay::call_effect(events[i])->0).effect_id == id
}

proof fn orderly_part(a: Seq<EventV>, b: Seq<EventV>)
    requires
        orderly(a + b),
    ensures
        orderly(a),
        orderly(b),
{
    let all = a + b;
    assert forall|i: int| 0 <= i < a.len() implies is_fit(#[trigger] a[i]) by {
        assert(all[i] == a[i]);
    }
    assert forall|i: int| 0 <= i < b.len() implies is_fit(#[trigger] b[i]) by {
        assert(all[a.len() + i] == b[i]);
    }
    assert forall|i: int, j: int|
        0 <= i < a.len() && 0 <= j < a.len() && i != j implies compatible(
        #[trigger] a[i],
        #[trigger] a[j],
    ) by {
        assert(all[i] == a[i] && all[j] == a[j]);
    }
    assert forall|i: int, j: int|
        0 <= i < b.len() && 0 <= j < b.len() && i != j implies compatible(
        #[trigger] b[i],
        #[trigger] b[j],
    ) by {
        assert(all[a.len() + i] == b[i] && all[a.len() + j] == b[j]);
    }
}

/// An orderly recording is indexed without an error.
proof fn orderly_recordings_are_indexed(events: Seq<EventV>)
    requires
        orderly(events),
    ensures
        replay::indexed_from(replay::blank(), events) matches Ok(x) && is_index_of(x, events)
            && apart(x.ops),
    decreases events.len(),
{
    if events.len() > 0 {
        let less = events.drop_last();
        let e = events.last();
        assert(events =~= less + seq![e]);
        orderly_part(less, seq![e]);
        orderly_recordings_are_indexed(less);
        assert(is_fit(events[events.len() - 1]));
        let x = replay::indexed_from(replay::blank(), less)->Ok_0;
        fit_events_are_taken(x, e);
        let y = taken(x, e);
        assert forall|o: u64| #[trigger] y.ops.dom().contains(o) implies calls_effect(
            events,
            o,
            y.ops[o],
        ) by {
            if replay::call_op(e) == Some(o) {
                assert(events[events.len() - 1] == e);
            } else {
                assert(x.ops.dom().contains(o));
                let i = choose|i: int|
                    0 <= i < less.len() && replay::call_op(#[trigger] less[i]) == Some(o) && (
                    replay::call_effect(less[i])->0).effect_id == x.ops[o];
                assert(events[i] == less[i]);
            }
        }
        assert forall|i: int| 0 <= i < y.early.len() implies replay::outcome_op(
            #[trigger] y.early[i],
        ) is Some by {
            if i < x.early.len() {
                assert(replay::outcome_op(x.early[i]) is Some);
            }
        }
        assert forall|a: u64, b: u64|
            #![trigger y.ops.dom().contains(a), y.ops.dom().contains(b)]
            y.ops.dom().contains(a) && y.ops.dom().contains(b) && a != b implies y.ops[a]
            != y.ops[b] by {
            assert(calls_effect(events, a, y.ops[a]));
            assert(calls_effect(events, b, y.ops[b]));
            let i = choose|i: int|
                0 <= i < events.len() && replay::call_op(#[trigger] events[i]) == Some(a) && (
                replay::call_effect(events[i])->0).effect_id == y.ops[a];
            let j = choose|j: int|
                0 <= j < events.len() && replay::call_op(#[trigger] events[j]) == Some(b) && (
                replay::call_effect(events[j])->0).effect_id == y.ops[b];
            assert(i != j);
            assert(compatible(events[i], events[j]));
        }
    }
}

/// Outcomes leave the operations as they are, and are always taken.
proof fn outcomes_keep_operations(x: IndexV, list: Seq<EventV>)
    requires
        forall|i: int| 0 <= i < list.len() ==> replay::outcome_op(#[trigger] list[i]) is Some,
    ensures
        replay::indexed_from(x, list) matches Ok(y) && y.ops == x.ops,
    decreases list.len(),
{
    if list.len() > 0 {
        let less = list.drop_last();
        assert forall|i: int| 0 <= i < less.len() implies replay::outcome_op(#[trigger] less[i])
            is Some by {
            assert(list[i] == less[i]);
        }
        outcomes_keep_operations(x, less);
        assert(replay::outcome_op(list[list.len() - 1]) is Some);
        replay::outcomes_are_noted(replay::indexed_from(x, less)->Ok_0, list.last());
    }
}

/// What is put aside does not change what is noted.
proof fn like_indexes_note_alike(a: IndexV, b: IndexV, events: Seq<EventV>)
    requires
        a.trace == b.trace,
        a.ops == b.ops,
    ensures
        match (replay::indexed_from(a, events), replay::indexed_from(b, events)) {
            (Ok(p), Ok(q)) => p.trace == q.trace && p.ops == q.ops && exists|more: Seq<EventV>|
                p.early == a.early + more && q.early == #[trigger] (b.early + more),
            (Err(p), Err(q)) => p == q,
            _ => false,
        },
{
    let bare = IndexV { early: Seq::empty(), ..a };
    replay::early_is_kept(bare, a.early, events);
    replay::early_is_kept(bare, b.early, events);
    assert(IndexV { early: a.early, ..bare } == a);
    assert(IndexV { early: b.early, ..bare } == b);
    match replay::indexed_from(bare, events) {
        Ok(r) => {
            let p = replay::indexed_from(a, events)->Ok_0;
            let q = replay::indexed_from(b, events)->Ok_0;
            assert(p.early == a.early + r.early && q.early == b.early + r.early);
        },
        Err(_) => {},
    }
}

/// The order in which two outcomes were put aside does not matter.
proof fn order_of_early_ones(
    a: IndexV,
    b: IndexV,
    before: Seq<EventV>,
    p: EventV,
    q: EventV,
    after: Seq<EventV>,
)
    requires
        a.trace == b.trace,
        a.ops == b.ops,
        apart(a.ops),
        compatible(p, q),
        replay::outcome_op(p) is Some,
        replay::outcome_op(q) is Some,
        a.early == before + seq![p, q] + after,
        b.early == before + seq![q, p] + after,
        forall|i: int| 0 <= i < before.len() ==> replay::outcome_op(#[trigger] before[i]) is Some,
    ensures
        match (replay::caught_up(a), replay::caught_up(b)) {
            (Ok(x), Ok(y)) => x.trace == y.trace,
            (Err(x), Err(y)) => x == y,
            _ => false,
        },
{
    let start = IndexV { early: Seq::empty(), ..a };
    assert(start == IndexV { early: Seq::empty(), ..b });
    replay::indexed_in_parts(start, before + seq![p, q], after);
    replay::indexed_in_parts(start, before + seq![q, p], after);
    replay::indexed_in_parts(start, before, seq![p, q]);
    replay::indexed_in_parts(start, before, seq![q, p]);
    outcomes_keep_operations(start, before);
    let s = replay::indexed_from(start, before)->Ok_0;
    replay::index_of_two(s, p, q);
    replay::index_of_two(s, q, p);
    fit_events_are_taken(s, p);
    fit_events_are_taken(s, q);
    fit_events_are_taken(taken(s, p), q);
    fit_events_are_taken(taken(s, q), p);
    events_commute(s, p, q);
    like_indexes_note_alike(taken(taken(s, p), q), taken(taken(s, q), p), after);
}

/// Whether two recordings are indexed alike.
spec fn alike(a: Seq<EventV>, b: Seq<EventV>) -> bool {
    match (replay::indexed(a), replay::indexed(b)) {
        (Ok(x), Ok(y)) => x.trace == y.trace,
        _ => false,
    }
}

/// An orderly recording can be replayed.
proof fn orderly_recordings_are_read(events: Seq<EventV>)
    requires
        orderly(events),
    ensures
        replay::indexed(events) is Ok,
{
    orderly_recordings_are_indexed(events);
    let x = replay::indexed_from(replay::blank(), events)->Ok_0;
    outcomes_keep_operations(IndexV { early: Seq::empty(), ..x }, x.early);
}

proof fn are_foreign_to(
    events: Seq<EventV>,
    all: Seq<EventV>,
    from: int,
    call: int,
    outcome: int,
)
    requires
        orderly(all),
        0 <= call < all.len(),
        0 <= outcome < all.len(),
        0 <= from <= from + events.len() <= all.len(),
        forall|i: int| 0 <= i < events.len() ==> events[i] == #[trigger] all[from + i],
        forall|i: int| 0 <= i < events.len() ==> from + i != call && #[trigger] (from + i) != outcome,
        replay::call_op(all[call]) is Some,
        replay::outcome_op(all[outcome]) == replay::call_op(all[call]),
    ensures
        replay::are_foreign(
            events,
            replay::call_op(all[call])->0,
            (replay::call_effect(all[call])->0).effect_id,
        ),
{
    let op = replay::call_op(all[call])->0;
    let id = (replay::call_effect(all[call])->0).effect_id;
    assert forall|i: int| 0 <= i < events.len() implies replay::is_foreign(
        #[trigger] events[i],
        op,
        id,
    ) by {
        assert(events[i] == all[from + i]);
        assert(from + i != call && from + i != outcome);
        assert(compatible(all[from + i], all[call]));
        assert(compatible(all[from + i], all[outcome]));
    }
}

/// Two neighbours may change places.
proof fn neighbours_change_places(
    before: Seq<EventV>,
    p: EventV,
    q: EventV,
    after: Seq<EventV>,
)
    requires
        orderly(before + seq![p, q] + after),
        orderly(before + seq![q, p] + after),
    ensures
        alike(before + seq![p, q] + after, before + seq![q, p] + after),
{
    let one = before + seq![p, q] + after;
    let two = before + seq![q, p] + after;
    let n = before.len() as int;
    orderly_recordings_are_read(one);
    orderly_recordings_are_read(two);
    assert(one[n] == p && one[n + 1] == q);
    assert(forall|i: int| 0 <= i < before.len() ==> before[i] == #[trigger] one[0 + i]);
    assert(forall|i: int| 0 <= i < after.len() ==> after[i] == #[trigger] one[n + 2 + i]);
    if replay::call_op(p) is Some && replay::outcome_op(q) == replay::call_op(p) {
        are_foreign_to(before, one, 0, n, n + 1);
        are_foreign_to(after, one, n + 2, n, n + 1);
        replay::outcomes_may_come_first(before, p, q, after);
    } else if replay::call_op(q) is Some && replay::outcome_op(p) == replay::call_op(q) {
        are_foreign_to(before, one, 0, n + 1, n);
        are_foreign_to(after, one, n + 2, n + 1, n);
        replay::outcomes_may_come_first(before, q, p, after);
    } else {
        orderly_part(before + seq![p, q], after);
        orderly_part(before, seq![p, q]);
        orderly_recordings_are_indexed(before);
        let x = replay::indexed_from(replay::blank(), before)->Ok_0;
        replay::indexed_in_parts(replay::blank(), before + seq![p, q], after);
        replay::indexed_in_parts(replay::blank(), before + seq![q, p], after);
        replay::indexed_in_parts(replay::blank(), before, seq![p, q]);
        replay::indexed_in_parts(replay::blank(), before, seq![q, p]);
        replay::index_of_two(x, p, q);
        replay::index_of_two(x, q, p);
        assert(is_fit(one[n]) && is_fit(one[n + 1]));
        assert(compatible(one[n], one[n + 1]));
        fit_events_are_taken(x, p);
        fit_events_are_taken(x, q);
        fit_events_are_taken(taken(x, p), q);
        fit_events_are_taken(taken(x, q), p);
        events_commute(x, p, q);
        let a = taken(taken(x, p), q);
        let b = taken(taken(x, q), p);
        if a != b {
            like_indexes_note_alike(a, b, after);
            orderly_recordings_are_indexed(one);
            let y = replay::indexed_from(a, after)->Ok_0;
            let z = replay::indexed_from(b, after)->Ok_0;
            let more = choose|more: Seq<EventV>|
                y.early == a.early + more && z.early == #[trigger] (b.early + more);
            assert forall|i: int| 0 <= i < x.early.len() implies replay::outcome_op(
                #[trigger] x.early[i],
            ) is Some by {}
            order_of_early_ones(y, z, x.early, p, q, more);
        }
    }
}

/// An orderly recording stays orderly when neighbours change places.
proof fn order_stays(before: Seq<EventV>, p: EventV, q: EventV, after: Seq<EventV>)
    requires
        orderly(before + seq![p, q] + after),
    ensures
        orderly(before + seq![q, p] + after),
{
    let one = before + seq![p, q] + after;
    let two = before + seq![q, p] + after;
    let n = before.len() as int;
    let from = |i: int|
        if i == n {
            n + 1
        } else if i == n + 1 {
            n
        } else {
            i
        };
    assert forall|i: int| 0 <= i < two.len() implies #[trigger] two[i] == one[from(i)] by {}
    assert forall|i: int| 0 <= i < two.len() implies is_fit(#[trigger] two[i]) by {
        assert(is_fit(one[from(i)]));
    }
    assert forall|i: int, j: int|
        0 <= i < two.len() && 0 <= j < two.len() && i != j implies compatible(
        #[trigger] two[i],
        #[trigger] two[j],
    ) by {
        assert(compatible(one[from(i)], one[from(j)]));
    }
}

/// An event may be moved to the end of its part.
proof fn move_to_the_end(part: Seq<EventV>, i: int, rest: Seq<EventV>)
    requires
        orderly(part + rest),
        0 <= i < part.len(),
    ensures
        orderly(part.remove(i) + (seq![part[i]] + rest)),
        alike(part + rest, part.remove(i) + (seq![part[i]] + rest)),
    decreases part.len() - i,
{
    let e = part[i];
    if i == part.len() - 1 {
        assert(part.remove(i) + (seq![e] + rest) =~= part + rest);
        orderly_recordings_are_read(part + rest);
    } else {
        let before = part.take(i);
        let q = part[i + 1];
        let after = part.skip(i + 2) + rest;
        assert(part + rest =~= before + seq![e, q] + after);
        order_stays(before, e, q, after);
        neighbours_change_places(before, e, q, after);
        let next = part.update(i, q).update(i + 1, e);
        assert(next + rest =~= before + seq![q, e] + after);
        move_to_the_end(next, i + 1, rest);
        assert(next.remove(i + 1) =~= part.remove(i));
    }
}

proof fn reordered(a: Seq<EventV>, b: Seq<EventV>, rest: Seq<EventV>)
    requires
        orderly(a + rest),
        a.to_multiset() == b.to_multiset(),
    ensures
        alike(a + rest, b + rest),
    decreases b.len(),
{
    broadcast use vstd::seq_lib::group_to_multiset_ensures;

    assert(a.len() == a.to_multiset().len() && b.len() == b.to_multiset().len());
    if b.len() == 0 {
        assert(a + rest =~= b + rest);
        orderly_recordings_are_read(a + rest);
    } else {
        let e = b.last();
        let n = b.len() - 1;
        assert(b[n] == e);
        assert(b.to_multiset().count(e) > 0);
        assert(a.contains(e));
        let i = choose|i: int| 0 <= i < a.len() && a[i] == e;
        move_to_the_end(a, i, rest);
        assert(b.remove(n) =~= b.drop_last());
        assert(a.remove(i).to_multiset() == b.drop_last().to_multiset());
        reordered(a.remove(i), b.drop_last(), seq![e] + rest);
        assert(b.drop_last() + (seq![e] + rest) =~= b + rest);
    }
}

/// The order of the events does not matter.  Where calls and their outcomes
/// share their operations and nothing is said twice, a recording can be read
/// however its events are put, and answers every effect alike.
pub proof fn order_does_not_matter(a: Seq<EventV>, b: Seq<EventV>)
    requires
        orderly(a),
        a.to_multiset() == b.to_multiset(),
    ensures
        replay::indexed(a) matches Ok(x) && replay::indexed(b) matches Ok(y) && x.trace == y.trace,
{
    let none: Seq<EventV> = Seq::empty();
    assert(a + none =~= a);
    assert(b + none =~= b);
    reordered(a, b, none);
}

} // verus!
