//! Control flow of a program: which blocks are reached, which variables a
//! block needs from its predecessors, and when a program is valid.
use crate::ir;
use crate::ir::{Block, BlockId, BlockV, Blocks, Program, ProgramV, TerminatorV};
use crate::ir_vars;
use crate::ir_vars::{
    block_definitions, direct_free_vars, has_name, insert_name, instr_out_public, instr_uses,
    terminator_edges_with_args, terminator_successor_ids, terminator_value_uses, var_strings,
};
use crate::op;
use crate::text;
use crate::text::{debug_quoted, decimal_of, precedes};
use vstd::prelude::*;

verus! {

/// The labels that the block labelled `id` may go to.
pub open spec fn next_labels(blocks: Blocks, id: u32) -> Seq<u32> {
    match ir::block_at(blocks, id) {
        Some(b) => ir_vars::successors(b.terminator),
        None => Seq::empty(),
    }
}

/// How many blocks carry a label that has not been seen.
pub open spec fn unseen(blocks: Blocks, seen: Seq<u32>) -> nat
    decreases blocks.len(),
{
    if blocks.len() == 0 {
        0
    } else {
        unseen(blocks.drop_last(), seen) + if seen.contains(blocks.last().0) {
            0nat
        } else {
            1
        }
    }
}

/// Seeing a label leaves no more blocks unseen, and fewer where a block carries
/// it.
pub proof fn unseen_step(blocks: Blocks, seen: Seq<u32>, id: u32)
    ensures
        unseen(blocks, seen.push(id)) <= unseen(blocks, seen),
        !seen.contains(id) && (exists|i: int| 0 <= i < blocks.len() && (#[trigger] blocks[i]).0 == id)
            ==> unseen(blocks, seen.push(id)) < unseen(blocks, seen),
    decreases blocks.len(),
{
    if blocks.len() > 0 {
        let rest = blocks.drop_last();
        unseen_step(rest, seen, id);
        let now = seen.push(id);
        assert(now[now.len() - 1] == id);
        if seen.contains(blocks.last().0) {
            let k = choose|k: int| 0 <= k < seen.len() && seen[k] == blocks.last().0;
            assert(now[k] == blocks.last().0);
        }
        if !seen.contains(id) && (exists|i: int|
            0 <= i < blocks.len() && (#[trigger] blocks[i]).0 == id) {
            let k = choose|k: int| 0 <= k < blocks.len() && (#[trigger] blocks[k]).0 == id;
            if k < rest.len() {
                assert(rest[k].0 == id);
            }
        }
    }
}

/// The labels in depth-first order: `todo` is still to be visited, `seen` has
/// been, and a label is visited before its successors.
pub open spec fn preorder(blocks: Blocks, todo: Seq<u32>, seen: Seq<u32>) -> Seq<u32>
    decreases unseen(blocks, seen), todo.len(),
{
    if todo.len() == 0 {
        seen
    } else if seen.contains(todo[0]) {
        preorder(blocks, todo.drop_first(), seen)
    } else {
        proof {
            unseen_step(blocks, seen, todo[0]);
            ir::block_at_found(blocks, todo[0]);
        }
        preorder(
            blocks,
            next_labels(blocks, todo[0]) + todo.drop_first(),
            seen.push(todo[0]),
        )
    }
}

/// The labels that are reached from the entry, in depth-first order.
pub open spec fn reached(p: ProgramV) -> Seq<u32> {
    preorder(p.blocks, seq![p.entry], Seq::empty())
}

/// Every successor of a label in `ids` is in `ids` or in `also`.
pub open spec fn closed_with(blocks: Blocks, ids: Seq<u32>, also: Seq<u32>) -> bool {
    forall|i: int, k: int|
        0 <= i < ids.len() && 0 <= k < next_labels(blocks, ids[i]).len() ==> {
            let s = #[trigger] next_labels(blocks, ids[i])[k];
            ids.contains(s) || also.contains(s)
        }
}

/// `x` is a successor of one of `ids`.
pub open spec fn follows(blocks: Blocks, ids: Seq<u32>, x: u32) -> bool {
    exists|j: int| 0 <= j < ids.len() && (#[trigger] next_labels(blocks, ids[j])).contains(x)
}

/// Every label after the first follows from an earlier one.
pub open spec fn grounded(blocks: Blocks, ids: Seq<u32>) -> bool {
    forall|i: int| 0 < i < ids.len() ==> follows(blocks, ids.take(i), #[trigger] ids[i])
}

/// Every label that is still to be visited follows from a visited one, once
/// there is any.
pub open spec fn from_seen(blocks: Blocks, todo: Seq<u32>, seen: Seq<u32>) -> bool {
    seen.len() > 0 ==> forall|k: int|
        0 <= k < todo.len() ==> follows(blocks, seen, #[trigger] todo[k])
}

proof fn follows_push(blocks: Blocks, ids: Seq<u32>, id: u32, x: u32)
    requires
        follows(blocks, ids, x) || next_labels(blocks, id).contains(x),
    ensures
        follows(blocks, ids.push(id), x),
{
    let now = ids.push(id);
    if follows(blocks, ids, x) {
        let j = choose|j: int|
            0 <= j < ids.len() && (#[trigger] next_labels(blocks, ids[j])).contains(x);
        assert(next_labels(blocks, now[j]).contains(x));
    } else {
        assert(next_labels(blocks, now[ids.len() as int]).contains(x));
    }
}

proof fn contains_push(ids: Seq<u32>, id: u32, x: u32)
    ensures
        ids.push(id).contains(x) <==> ids.contains(x) || x == id,
{
    let now = ids.push(id);
    assert(now[ids.len() as int] == id);
    if ids.contains(x) {
        let k = choose|k: int| 0 <= k < ids.len() && ids[k] == x;
        assert(now[k] == x);
    }
    if now.contains(x) && x != id {
        let k = choose|k: int| 0 <= k < now.len() && now[k] == x;
        assert(ids[k] == x);
    }
}

proof fn closed_step(blocks: Blocks, todo: Seq<u32>, seen: Seq<u32>)
    requires
        todo.len() > 0,
        closed_with(blocks, seen, todo),
    ensures
        seen.contains(todo[0]) ==> closed_with(blocks, seen, todo.drop_first()),
        closed_with(
            blocks,
            seen.push(todo[0]),
            next_labels(blocks, todo[0]) + todo.drop_first(),
        ),
{
    let id = todo[0];
    let rest = todo.drop_first();
    let succ = next_labels(blocks, id);
    let more = succ + rest;
    let now = seen.push(id);
    if seen.contains(id) {
        assert forall|i: int, k: int|
            0 <= i < seen.len() && 0 <= k < next_labels(blocks, seen[i]).len() implies {
            let s = #[trigger] next_labels(blocks, seen[i])[k];
            seen.contains(s) || rest.contains(s)
        } by {
            let s = next_labels(blocks, seen[i])[k];
            if !seen.contains(s) {
                let m = choose|m: int| 0 <= m < todo.len() && todo[m] == s;
                assert(rest[m - 1] == s);
            }
        }
    }
    assert forall|i: int, k: int|
        0 <= i < now.len() && 0 <= k < next_labels(blocks, now[i]).len() implies {
        let s = #[trigger] next_labels(blocks, now[i])[k];
        now.contains(s) || more.contains(s)
    } by {
        let s = next_labels(blocks, now[i])[k];
        contains_push(seen, id, s);
        if i == seen.len() {
            assert(more[k] == s);
        } else {
            assert(s == next_labels(blocks, seen[i])[k]);
            if !seen.contains(s) {
                let m = choose|m: int| 0 <= m < todo.len() && todo[m] == s;
                if m > 0 {
                    assert(more[succ.len() + m - 1] == s);
                }
            }
        }
    }
}

proof fn grounded_step(blocks: Blocks, todo: Seq<u32>, seen: Seq<u32>)
    requires
        todo.len() > 0,
        grounded(blocks, seen),
        from_seen(blocks, todo, seen),
    ensures
        grounded(blocks, seen.push(todo[0])),
{
    let now = seen.push(todo[0]);
    assert forall|i: int| 0 < i < now.len() implies follows(
        blocks,
        now.take(i),
        #[trigger] now[i],
    ) by {
        if i < seen.len() {
            assert(now.take(i) =~= seen.take(i));
            assert(now[i] == seen[i]);
        } else {
            assert(now.take(i) =~= seen);
            assert(follows(blocks, seen, todo[0]));
        }
    }
}

proof fn from_seen_step(blocks: Blocks, todo: Seq<u32>, seen: Seq<u32>)
    requires
        todo.len() > 0,
        from_seen(blocks, todo, seen),
        seen.len() == 0 ==> todo.len() == 1,
    ensures
        from_seen(blocks, todo.drop_first(), seen),
        from_seen(
            blocks,
            next_labels(blocks, todo[0]) + todo.drop_first(),
            seen.push(todo[0]),
        ),
{
    let id = todo[0];
    let rest = todo.drop_first();
    let succ = next_labels(blocks, id);
    let more = succ + rest;
    let now = seen.push(id);
    if seen.len() > 0 {
        assert forall|k: int| 0 <= k < rest.len() implies follows(
            blocks,
            seen,
            #[trigger] rest[k],
        ) by {
            assert(rest[k] == todo[k + 1]);
        }
    }
    assert forall|k: int| 0 <= k < more.len() implies follows(blocks, now, #[trigger] more[k]) by {
        if k < succ.len() {
            assert(more[k] == succ[k]);
            assert(succ.contains(more[k]));
        } else {
            assert(more[k] == todo[k - succ.len() + 1]);
        }
        follows_push(blocks, seen, id, more[k]);
    }
}

/// What holds of a depth-first order: no label twice, nothing that was seen is
/// lost, and it is closed and grounded.
pub proof fn preorder_facts(blocks: Blocks, todo: Seq<u32>, seen: Seq<u32>)
    requires
        seen.no_duplicates(),
        closed_with(blocks, seen, todo),
        grounded(blocks, seen),
        from_seen(blocks, todo, seen),
        seen.len() == 0 ==> todo.len() <= 1,
    ensures
        preorder(blocks, todo, seen).no_duplicates(),
        closed_with(blocks, preorder(blocks, todo, seen), Seq::empty()),
        grounded(blocks, preorder(blocks, todo, seen)),
        seen.is_prefix_of(preorder(blocks, todo, seen)),
    decreases unseen(blocks, seen), todo.len(),
{
    if todo.len() == 0 {
        assert(todo =~= Seq::empty());
    } else {
        closed_step(blocks, todo, seen);
        from_seen_step(blocks, todo, seen);
        if seen.contains(todo[0]) {
            preorder_facts(blocks, todo.drop_first(), seen);
        } else {
            grounded_step(blocks, todo, seen);
            unseen_step(blocks, seen, todo[0]);
            ir::block_at_found(blocks, todo[0]);
            let now = seen.push(todo[0]);
            assert(now.no_duplicates()) by {
                assert forall|a: int, b: int| 0 <= a < b < now.len() implies now[a] != now[b] by {
                    if b == seen.len() {
                        assert(seen.contains(seen[a]));
                    }
                }
            }
            preorder_facts(blocks, next_labels(blocks, todo[0]) + todo.drop_first(), now);
            let r = preorder(blocks, todo, seen);
            assert(forall|m: int| 0 <= m < seen.len() ==> seen[m] == now[m]);
            assert(seen.is_prefix_of(r));
        }
    }
}

/// The labels that are reached from the entry are distinct, start with the
/// entry, are closed under going on, and each follows from an earlier one.
pub proof fn reached_facts(p: ProgramV)
    ensures
        reached(p).no_duplicates(),
        reached(p).len() > 0,
        reached(p)[0] == p.entry,
        closed_with(p.blocks, reached(p), Seq::empty()),
        grounded(p.blocks, reached(p)),
{
    let todo = seq![p.entry];
    let none: Seq<u32> = Seq::empty();
    preorder_facts(p.blocks, todo, none);
    closed_step(p.blocks, todo, none);
    from_seen_step(p.blocks, todo, none);
    grounded_step(p.blocks, todo, none);
    let now = none.push(p.entry);
    let more = next_labels(p.blocks, p.entry) + todo.drop_first();
    preorder_facts(p.blocks, more, now);
    assert(reached(p) == preorder(p.blocks, more, now));
    assert(reached(p)[0] == now[0]);
}

/// Whether a list holds a label.
fn has_label(list: &Vec<BlockId>, id: BlockId) -> (r: bool)
    ensures
        r == ir::labels(list@).contains(id.0),
{
    let mut i: usize = 0;
    while i < list.len()
        invariant
            i <= list@.len(),
            forall|j: int| 0 <= j < i ==> (#[trigger] list@[j]).0 != id.0,
        decreases list@.len() - i,
    {
        if list[i].0 == id.0 {
            assert(ir::labels(list@)[i as int] == id.0);
            return true;
        }
        i += 1;
    }
    false
}

/// The labels that are reached from the entry, in depth-first order.
pub fn reachable_blocks(p: &Program) -> (r: Vec<BlockId>)
    ensures
        ir::labels(r@) == reached(p@),
{
    let ghost blocks = p@.blocks;
    let mut seen: Vec<BlockId> = Vec::new();
    let mut todo: Vec<BlockId> = vec![p.entry];
    assert(ir::labels(todo@) =~= seq![p@.entry]);
    assert(ir::labels(seen@) =~= Seq::empty());
    while todo.len() > 0
        invariant
            blocks == p@.blocks,
            preorder(blocks, ir::labels(todo@), ir::labels(seen@)) == reached(p@),
        decreases unseen(blocks, ir::labels(seen@)), todo@.len(),
    {
        let ghost t = ir::labels(todo@);
        let ghost s = ir::labels(seen@);
        let id = todo.remove(0);
        assert(ir::labels(todo@) =~= t.drop_first());
        if !has_label(&seen, id) {
            proof {
                unseen_step(blocks, s, id.0);
                ir::block_at_found(blocks, id.0);
            }
            seen.push(id);
            assert(ir::labels(seen@) =~= s.push(id.0));
            let mut next: Vec<BlockId> = match p.block(id) {
                Some(b) => terminator_successor_ids(&b.terminator),
                None => Vec::new(),
            };
            assert(ir::labels(next@) =~= next_labels(blocks, id.0));
            let ghost n = next@;
            next.append(&mut todo);
            assert(ir::labels(next@) =~= next_labels(blocks, id.0) + t.drop_first());
            todo = next;
        }
    }
    assert(ir::labels(todo@) =~= Seq::empty());
    seen
}

/// The block needs `v` from before: it reads `v`, or within `n` steps a block
/// does that is reached without `v` being defined on the way.
pub open spec fn needs(blocks: Blocks, id: u32, v: Seq<char>, n: nat) -> bool
    decreases n,
{
    match ir::block_at(blocks, id) {
        None => false,
        Some(b) => ir_vars::free_vars(b).contains(v) || (n > 0 && !ir_vars::all_defined(b).contains(
            v,
        ) && exists|k: int|
            0 <= k < next_labels(blocks, id).len() && needs(
                blocks,
                #[trigger] next_labels(blocks, id)[k],
                v,
                (n - 1) as nat,
            )),
    }
}

/// The variables that a block needs from before.
pub open spec fn required(blocks: Blocks, id: u32) -> Set<Seq<char>> {
    Set::new(|v: Seq<char>| exists|n: nat| #[trigger] needs(blocks, id, v, n))
}

/// More steps need no less.
pub proof fn needs_more(blocks: Blocks, id: u32, v: Seq<char>, n: nat, m: nat)
    requires
        n <= m,
        needs(blocks, id, v, n),
    ensures
        needs(blocks, id, v, m),
    decreases n,
{
    if let Some(b) = ir::block_at(blocks, id) {
        if !ir_vars::free_vars(b).contains(v) {
            let k = choose|k: int|
                0 <= k < next_labels(blocks, id).len() && needs(
                    blocks,
                    #[trigger] next_labels(blocks, id)[k],
                    v,
                    (n - 1) as nat,
                );
            needs_more(blocks, next_labels(blocks, id)[k], v, (n - 1) as nat, (m - 1) as nat);
        }
    }
}

/// What a successor requires and the block does not define, the block
/// requires.
pub proof fn required_flows_back(blocks: Blocks, id: u32, k: int, v: Seq<char>)
    requires
        ir::block_at(blocks, id) is Some,
        0 <= k < next_labels(blocks, id).len(),
        required(blocks, next_labels(blocks, id)[k]).contains(v),
        !ir_vars::all_defined(ir::block_at(blocks, id)->0).contains(v),
    ensures
        required(blocks, id).contains(v),
{
    let n = choose|n: nat| #[trigger] needs(blocks, next_labels(blocks, id)[k], v, n);
    assert(needs(blocks, id, v, n + 1)) by {
        assert((n + 1 - 1) as nat == n);
        assert(needs(blocks, next_labels(blocks, id)[k], v, ((n + 1) - 1) as nat));
    }
}

/// What a block reads before defining it, it requires.
pub proof fn free_is_required(blocks: Blocks, id: u32)
    requires
        ir::block_at(blocks, id) is Some,
    ensures
        ir_vars::free_vars(ir::block_at(blocks, id)->0).subset_of(required(blocks, id)),
{
    assert forall|v: Seq<char>| ir_vars::free_vars(ir::block_at(
        blocks,
        id,
    )->0).contains(v) implies required(
        blocks,
        id,
    ).contains(v) by {
        assert(needs(blocks, id, v, 0));
    }
}

/// A family of sets that holds the free variables and is closed under flowing
/// back holds everything that is required.
pub proof fn required_is_least(
    blocks: Blocks,
    ids: Seq<u32>,
    sets: Seq<Set<Seq<char>>>,
    i: int,
    v: Seq<char>,
    n: nat,
)
    requires
        ids.len() == sets.len(),
        0 <= i < ids.len(),
        closed_with(blocks, ids, Seq::empty()),
        forall|a: int|
            0 <= a < ids.len() && ir::block_at(blocks, #[trigger] ids[a]) is Some
                ==> ir_vars::free_vars(ir::block_at(blocks, ids[a])->0).subset_of(sets[a]),
        forall|a: int, b: int, x: Seq<char>|
            #![trigger sets[a].contains(x), ids[b]]
            0 <= a < ids.len() && 0 <= b < ids.len() && ir::block_at(blocks, ids[b]) is Some
                && next_labels(blocks, ids[b]).contains(ids[a]) && sets[a].contains(x)
                && !ir_vars::all_defined(ir::block_at(blocks, ids[b])->0).contains(x)
                ==> sets[b].contains(x),
        needs(blocks, ids[i], v, n),
    ensures
        sets[i].contains(v),
    decreases n,
{
    let b = ir::block_at(blocks, ids[i])->0;
    if !ir_vars::free_vars(b).contains(v) {
        let k = choose|k: int|
            0 <= k < next_labels(blocks, ids[i]).len() && needs(
                blocks,
                #[trigger] next_labels(blocks, ids[i])[k],
                v,
                (n - 1) as nat,
            );
        let s = next_labels(blocks, ids[i])[k];
        assert(ids.contains(s));
        let a = choose|a: int| 0 <= a < ids.len() && ids[a] == s;
        required_is_least(blocks, ids, sets, a, v, (n - 1) as nat);
        assert(next_labels(blocks, ids[i]).contains(ids[a]));
        assert(sets[a].contains(v));
    }
}

/// A list without repetition whose members all occur in another is no longer
/// than that one.
proof fn distinct_len_bound(s: Seq<Seq<char>>, all: Seq<Seq<char>>)
    requires
        s.no_duplicates(),
        s.to_set().subset_of(all.to_set()),
    ensures
        s.len() <= all.len(),
{
    s.unique_seq_to_set();
    all.lemma_cardinality_of_set();
    vstd::seq_lib::seq_to_set_is_finite(all);
    vstd::set_lib::lemma_len_subset(s.to_set(), all.to_set());
}

/// The sets of names in a list of lists.
pub open spec fn name_sets(req: Seq<Vec<String>>) -> Seq<Set<Seq<char>>> {
    Seq::new(req.len(), |i: int| ir_vars::names(req[i]@))
}

/// How many names the lists hold together.
pub open spec fn total(req: Seq<Vec<String>>) -> nat
    decreases req.len(),
{
    if req.len() == 0 {
        0
    } else {
        total(req.drop_last()) + req.last()@.len()
    }
}

proof fn total_bound(req: Seq<Vec<String>>, all: Seq<Seq<char>>)
    requires
        forall|i: int|
            0 <= i < req.len() ==> ir_vars::distinct((#[trigger] req[i])@) && ir_vars::names(
                req[i]@,
            ).subset_of(all.to_set()),
    ensures
        total(req) <= req.len() * all.len(),
    decreases req.len(),
{
    if req.len() > 0 {
        let rest = req.drop_last();
        assert(forall|i: int| 0 <= i < rest.len() ==> rest[i] == req[i]);
        total_bound(rest, all);
        let last = req[req.len() - 1];
        distinct_len_bound(op::texts(last@), all);
        assert(req.len() * all.len() == rest.len() * all.len() + all.len()) by (nonlinear_arith)
            requires
                req.len() == rest.len() + 1,
        ;
    }
}

proof fn total_update(req: Seq<Vec<String>>, i: int, x: Vec<String>)
    requires
        0 <= i < req.len(),
    ensures
        total(req.update(i, x)) == total(req) - req[i]@.len() + x@.len(),
    decreases req.len(),
{
    let now = req.update(i, x);
    if i == req.len() - 1 {
        assert(now.drop_last() =~= req.drop_last());
    } else {
        assert(now.drop_last() =~= req.drop_last().update(i, x));
        total_update(req.drop_last(), i, x);
    }
}

/// The position of a label in a list.
pub(crate) fn label_index(list: &Vec<BlockId>, id: BlockId) -> (r: Option<usize>)
    ensures
        match r {
            Some(i) => {
                &&& i < list@.len()
                &&& ir::labels(list@)[i as int] == id.0
                &&& forall|j: int| 0 <= j < i ==> ir::labels(list@)[j] != id.0
            },
            None => !ir::labels(list@).contains(id.0),
        },
{
    let mut i: usize = 0;
    while i < list.len()
        invariant
            i <= list@.len(),
            forall|j: int| 0 <= j < i ==> ir::labels(list@)[j] != id.0,
        decreases list@.len() - i,
    {
        if list[i].0 == id.0 {
            return Some(i);
        }
        i += 1;
    }
    None
}

/// `x` is needed by a successor and not defined by the block.
pub open spec fn flows_in(
    succ: Seq<u32>,
    ids: Seq<u32>,
    sets: Seq<Set<Seq<char>>>,
    defined: Set<Seq<char>>,
    x: Seq<char>,
) -> bool {
    !defined.contains(x) && exists|k: int, a: int|
        0 <= k < succ.len() && 0 <= a < ids.len() && #[trigger] succ[k] == #[trigger] ids[a]
            && sets[a].contains(x)
}

/// The names that the successors of a block need and the block does not
/// define.
fn flow_back(b: &Block, ids: &Vec<BlockId>, req: &Vec<Vec<String>>) -> (r: Vec<String>)
    requires
        ids@.len() == req@.len(),
        ir::labels(ids@).no_duplicates(),
    ensures
        ir_vars::distinct(r@),
        forall|x: Seq<char>| #[trigger]
            ir_vars::names(r@).contains(x) <==> flows_in(
                ir_vars::successors(b@.terminator),
                ir::labels(ids@),
                name_sets(req@),
                ir_vars::all_defined(b@),
                x,
            ),
{
    let succ = terminator_successor_ids(&b.terminator);
    let defined = block_definitions(b);
    let mut out: Vec<String> = Vec::new();
    let ghost ls = ir::labels(ids@);
    let ghost ss = ir::labels(succ@);
    let ghost sets = name_sets(req@);
    let ghost defs = ir_vars::all_defined(b@);
    let mut k: usize = 0;
    assert(ir_vars::names(out@) =~= Set::empty());
    while k < succ.len()
        invariant
            k <= succ@.len(),
            ids@.len() == req@.len(),
            ls == ir::labels(ids@),
            ls.no_duplicates(),
            ss == ir::labels(succ@),
            sets == name_sets(req@),
            ir_vars::names(defined@) == defs,
            ir_vars::distinct(out@),
            forall|x: Seq<char>| #[trigger]
                ir_vars::names(out@).contains(x) <==> flows_in(
                    ss.take(k as int),
                    ls,
                    sets,
                    defs,
                    x,
                ),
        decreases succ@.len() - k,
    {
        let ghost before = ir_vars::names(out@);
        match label_index(ids, succ[k]) {
            Some(a) => {
                ir_vars::add_undefined(&mut out, &req[a], &defined);
                assert forall|x: Seq<char>| #[trigger]
                    ir_vars::names(out@).contains(x) <==> flows_in(
                        ss.take(k + 1),
                        ls,
                        sets,
                        defs,
                        x,
                    ) by {
                    assert(sets[a as int] == ir_vars::names(req@[a as int]@));
                    if before.contains(x) {
                        let (j, c) = choose|j: int, c: int|
                            0 <= j < ss.take(k as int).len() && 0 <= c < ls.len()
                                && #[trigger] ss.take(k as int)[j] == #[trigger] ls[c]
                                && sets[c].contains(x);
                        assert(ss.take(k + 1)[j] == ls[c]);
                    }
                    if sets[a as int].contains(x) && !defs.contains(x) {
                        assert(ss.take(k + 1)[k as int] == ls[a as int]);
                    }
                    if flows_in(ss.take(k + 1), ls, sets, defs, x) {
                        let (j, c) = choose|j: int, c: int|
                            0 <= j < ss.take(k + 1).len() && 0 <= c < ls.len()
                                && #[trigger] ss.take(k + 1)[j] == #[trigger] ls[c]
                                && sets[c].contains(x);
                        if j < k {
                            assert(ss.take(k as int)[j] == ls[c]);
                        } else {
                            assert(c == a);
                        }
                    }
                }
            },
            None => {
                assert forall|x: Seq<char>| #[trigger]
                    ir_vars::names(out@).contains(x) <==> flows_in(
                        ss.take(k + 1),
                        ls,
                        sets,
                        defs,
                        x,
                    ) by {
                    if before.contains(x) {
                        let (j, c) = choose|j: int, c: int|
                            0 <= j < ss.take(k as int).len() && 0 <= c < ls.len()
                                && #[trigger] ss.take(k as int)[j] == #[trigger] ls[c]
                                && sets[c].contains(x);
                        assert(ss.take(k + 1)[j] == ls[c]);
                    }
                    if flows_in(ss.take(k + 1), ls, sets, defs, x) {
                        let (j, c) = choose|j: int, c: int|
                            0 <= j < ss.take(k + 1).len() && 0 <= c < ls.len()
                                && #[trigger] ss.take(k + 1)[j] == #[trigger] ls[c]
                                && sets[c].contains(x);
                        if j < k {
                            assert(ss.take(k as int)[j] == ls[c]);
                        } else {
                            assert(ls.contains(ss[k as int]));
                        }
                    }
                }
            },
        }
        k += 1;
    }
    assert(ss.take(k as int) =~= ss);
    out
}

/// Adds names to a list; says whether any was new.
fn merge(into: &mut Vec<String>, add: &Vec<String>) -> (r: bool)
    requires
        ir_vars::distinct(old(into)@),
    ensures
        ir_vars::distinct(final(into)@),
        ir_vars::names(final(into)@) == ir_vars::names(old(into)@).union(ir_vars::names(add@)),
        final(into)@.len() >= old(into)@.len(),
        r <==> final(into)@.len() > old(into)@.len(),
        !r ==> ir_vars::names(add@).subset_of(ir_vars::names(old(into)@)),
{
    let ghost before = ir_vars::names(into@);
    let ghost ts = op::texts(add@);
    let start: usize = into.len();
    let mut changed = false;
    let mut i: usize = 0;
    assert(ts.take(0).to_set() =~= Set::empty());
    assert(before.union(Set::empty()) =~= before);
    while i < add.len()
        invariant
            i <= add@.len(),
            ts == op::texts(add@),
            ir_vars::distinct(into@),
            ir_vars::names(into@) == before.union(ts.take(i as int).to_set()),
            into@.len() >= start,
            changed <==> into@.len() > start,
            !changed ==> ts.take(i as int).to_set().subset_of(before),
        decreases add@.len() - i,
    {
        let ghost prior = op::texts(into@);
        if !has_name(into, &add[i]) {
            insert_name(into, &add[i]);
            assert(op::texts(into@).len() == prior.len() + 1);
            changed = true;
        }
        proof {
            ir_vars::take_to_set(ts, i as int);
        }
        assert(ir_vars::names(into@) =~= before.union(ts.take(i + 1).to_set()));
        i += 1;
    }
    assert(ts.take(i as int) =~= ts);
    changed
}

/// What is known of the names collected so far: they are required, and the
/// free variables are among them.
spec fn collecting(
    blocks: Blocks,
    ids: Seq<u32>,
    req: Seq<Vec<String>>,
    all: Seq<Seq<char>>,
) -> bool {
    &&& req.len() == ids.len()
    &&& forall|i: int|
        0 <= i < req.len() ==> {
            &&& ir_vars::distinct((#[trigger] req[i])@)
            &&& ir_vars::names(req[i]@).subset_of(all.to_set())
            &&& ir_vars::names(req[i]@).subset_of(required(blocks, ids[i]))
        }
    &&& forall|i: int|
        0 <= i < ids.len() && ir::block_at(
            blocks,
            #[trigger] ids[i],
        ) is Some ==> ir_vars::free_vars(
            ir::block_at(blocks, ids[i])->0,
        ).subset_of(ir_vars::names(req[i]@))
}

/// Nothing more flows back into the block at position `i`.
spec fn settled(blocks: Blocks, ids: Seq<u32>, sets: Seq<Set<Seq<char>>>, i: int) -> bool {
    match ir::block_at(blocks, ids[i]) {
        Some(b) => forall|x: Seq<char>|
            #[trigger] flows_in(
                ir_vars::successors(b.terminator),
                ids,
                sets,
                ir_vars::all_defined(b),
                x,
            ) ==> sets[i].contains(x),
        None => true,
    }
}

/// What flows back into a block from required names is required.
proof fn flow_is_required(
    blocks: Blocks,
    ids: Seq<u32>,
    sets: Seq<Set<Seq<char>>>,
    i: int,
    x: Seq<char>,
)
    requires
        ids.len() == sets.len(),
        0 <= i < ids.len(),
        forall|a: int| 0 <= a < ids.len() ==> (#[trigger] sets[a]).subset_of(required(
            blocks,
            ids[a],
        )),
        ir::block_at(blocks, ids[i]) is Some,
        flows_in(
            next_labels(blocks, ids[i]),
            ids,
            sets,
            ir_vars::all_defined(ir::block_at(blocks, ids[i])->0),
            x,
        ),
    ensures
        required(blocks, ids[i]).contains(x),
{
    let succ = next_labels(blocks, ids[i]);
    let (k, a) = choose|k: int, a: int|
        0 <= k < succ.len() && 0 <= a < ids.len() && #[trigger] succ[k] == #[trigger] ids[a]
            && sets[a].contains(x);
    assert(required(blocks, ids[a]).contains(x));
    required_flows_back(blocks, ids[i], k, x);
}

/// Settled everywhere means that everything required has been collected.
proof fn settled_is_complete(
    blocks: Blocks,
    ids: Seq<u32>,
    req: Seq<Vec<String>>,
    all: Seq<Seq<char>>,
)
    requires
        collecting(blocks, ids, req, all),
        closed_with(blocks, ids, Seq::empty()),
        forall|i: int| 0 <= i < ids.len() ==> #[trigger] settled(blocks, ids, name_sets(req), i),
    ensures
        forall|i: int|
            0 <= i < ids.len() ==> ir_vars::names((#[trigger] req[i])@) == required(blocks, ids[i]),
{
    let sets = name_sets(req);
    assert forall|i: int| 0 <= i < ids.len() implies ir_vars::names((#[trigger] req[i])@)
        == required(blocks, ids[i]) by {
        let here = required(blocks, ids[i]);
        assert forall|v: Seq<char>| #[trigger] here.contains(v) implies sets[i].contains(v) by {
            let n = choose|n: nat| #[trigger] needs(blocks, ids[i], v, n);
            assert forall|a: int, b: int, x: Seq<char>|
                #![trigger sets[a].contains(x), ids[b]]
                0 <= a < ids.len() && 0 <= b < ids.len() && ir::block_at(blocks, ids[b]) is Some
                    && next_labels(blocks, ids[b]).contains(ids[a]) && sets[a].contains(x)
                    && !ir_vars::all_defined(ir::block_at(
                        blocks,
                        ids[b],
                    )->0).contains(x) implies sets[b].contains(
            x) by {
                let succ = next_labels(blocks, ids[b]);
                let k = choose|k: int| 0 <= k < succ.len() && succ[k] == ids[a];
                assert(succ[k] == ids[a]);
                assert(settled(blocks, ids, sets, b));
                assert(flows_in(
                    ir_vars::successors(ir::block_at(blocks, ids[b])->0.terminator),
                    ids,
                    sets,
                    ir_vars::all_defined(ir::block_at(blocks, ids[b])->0),
                    x,
                ));
            }
            assert forall|a: int|
                0 <= a < ids.len() && ir::block_at(
                    blocks,
                    #[trigger] ids[a],
                ) is Some implies ir_vars::free_vars(
                ir::block_at(blocks, ids[a])->0,
            ).subset_of(sets[a]) by {
                assert(sets[a] == ir_vars::names(req[a]@));
            }
            required_is_least(blocks, ids, sets, i, v, n);
        }
        assert(sets[i] == ir_vars::names(req[i]@));
        assert(here.subset_of(sets[i]));
        assert(sets[i].subset_of(here));
        assert(sets[i] =~= here);
    }
}

/// The free variables of each listed block, to start from.
fn initial_params(p: &Program, ids: &Vec<BlockId>) -> (r: (Vec<Vec<String>>, Ghost<Seq<Seq<char>>>))
    ensures
        collecting(p@.blocks, ir::labels(ids@), r.0@, r.1@),
{
    let ghost blocks = p@.blocks;
    let ghost ls = ir::labels(ids@);
    let ghost mut all: Seq<Seq<char>> = Seq::empty();
    let mut req: Vec<Vec<String>> = Vec::new();
    let mut i: usize = 0;
    while i < ids.len()
        invariant
            i <= ids@.len(),
            req@.len() == i,
            blocks == p@.blocks,
            ls == ir::labels(ids@),
            forall|j: int|
                0 <= j < i ==> {
                    &&& ir_vars::distinct((#[trigger] req@[j])@)
                    &&& ir_vars::names(req@[j]@).subset_of(all.to_set())
                    &&& ir_vars::names(req@[j]@).subset_of(required(blocks, ls[j]))
                },
            forall|j: int|
                0 <= j < i && ir::block_at(blocks, #[trigger] ls[j]) is Some ==> ir_vars::free_vars(
                    ir::block_at(blocks, ls[j])->0,
                ).subset_of(ir_vars::names(req@[j]@)),
        decreases ids@.len() - i,
    {
        let free = match p.block(ids[i]) {
            Some(b) => {
                proof {
                    free_is_required(blocks, ls[i as int]);
                }
                direct_free_vars(b)
            },
            None => {
                let none: Vec<String> = Vec::new();
                assert(ir_vars::names(none@) =~= Set::empty());
                none
            },
        };
        proof {
            let ts = op::texts(free@);
            let now = all + ts;
            assert forall|x: Seq<char>| all.contains(x) implies now.contains(x) by {
                let k = choose|k: int| 0 <= k < all.len() && all[k] == x;
                assert(now[k] == x);
            }
            assert forall|x: Seq<char>| ts.contains(x) implies now.contains(x) by {
                let k = choose|k: int| 0 <= k < ts.len() && ts[k] == x;
                assert(now[all.len() + k] == x);
            }
            all = now;
        }
        req.push(free);
        i += 1;
    }
    (req, Ghost(all))
}

/// The variables that each listed block needs from before.  The lists grow
/// from the free variables until nothing more flows back along an edge.
pub fn required_block_params(p: &Program, ids: &Vec<BlockId>) -> (r: Vec<Vec<String>>)
    requires
        ir::labels(ids@).no_duplicates(),
        closed_with(p@.blocks, ir::labels(ids@), Seq::empty()),
    ensures
        r@.len() == ids@.len(),
        forall|i: int|
            0 <= i < ids@.len() ==> ir_vars::distinct((#[trigger] r@[i])@) && ir_vars::names(r@[i]@)
                == required(p@.blocks, ir::labels(ids@)[i]),
{
    let ghost blocks = p@.blocks;
    let ghost ls = ir::labels(ids@);
    let (mut req, Ghost(all)) = initial_params(p, ids);
    let ghost bound = ids@.len() * all.len();
    let mut changed = true;
    proof {
        total_bound(req@, all);
    }
    while changed
        invariant
            blocks == p@.blocks,
            ls == ir::labels(ids@),
            ls.no_duplicates(),
            closed_with(blocks, ls, Seq::empty()),
            bound == ids@.len() * all.len(),
            collecting(blocks, ls, req@, all),
            total(req@) <= bound,
            !changed ==> forall|i: int|
                0 <= i < ls.len() ==> #[trigger] settled(blocks, ls, name_sets(req@), i),
        decreases bound - total(req@), (if changed { 1int } else { 0int }),
    {
        changed = false;
        let ghost start = total(req@);
        let mut i: usize = ids.len();
        while i > 0
            invariant
                i <= ids@.len(),
                blocks == p@.blocks,
                ls == ir::labels(ids@),
                ls.no_duplicates(),
                collecting(blocks, ls, req@, all),
                bound == ids@.len() * all.len(),
                total(req@) <= bound,
                total(req@) >= start,
                changed ==> total(req@) > start,
                !changed ==> forall|j: int|
                    i <= j < ls.len() ==> #[trigger] settled(blocks, ls, name_sets(req@), j),
            decreases i,
        {
            i -= 1;
            match p.block(ids[i]) {
                Some(b) => {
                    let ghost before = req@;
                    let ghost sets = name_sets(req@);
                    let add = flow_back(b, ids, &req);
                    let mut mine = ir::copy_strings(&req[i]);
                    assert(op::texts(mine@).len() == op::texts(before[i as int]@).len());
                    assert(mine@.len() == before[i as int]@.len());
                    let grew = merge(&mut mine, &add);
                    assert forall|x: Seq<char>| ir_vars::names(mine@).contains(x) implies required(
                        blocks,
                        ls[i as int],
                    ).contains(x) by {
                        if !ir_vars::names(before[i as int]@).contains(x) {
                            assert(ir_vars::names(add@).contains(x));
                            assert forall|a: int| 0 <= a < ls.len() implies (#[trigger] sets[a]).subset_of(
                                required(blocks, ls[a])) by {
                                assert(sets[a] == ir_vars::names(before[a]@));
                            }
                            flow_is_required(blocks, ls, sets, i as int, x);
                        }
                    }
                    assert forall|x: Seq<char>| ir_vars::names(mine@).contains(x) implies all.to_set().contains(x) by {
                        if !ir_vars::names(before[i as int]@).contains(x) {
                            assert(ir_vars::names(add@).contains(x));
                            let succ = ir_vars::successors(b@.terminator);
                            let (k, a) = choose|k: int, a: int|
                                0 <= k < succ.len() && 0 <= a < ls.len() && #[trigger] succ[k]
                                    == #[trigger] ls[a] && sets[a].contains(x);
                            assert(sets[a] == ir_vars::names(before[a]@));
                        }
                    }
                    if grew {
                        proof {
                            total_update(before, i as int, mine);
                        }
                        req.set(i, mine);
                        assert(req@ == before.update(i as int, mine));
                        changed = true;
                        proof {
                            total_bound(req@, all);
                        }
                    } else {
                        assert(settled(blocks, ls, sets, i as int)) by {
                            assert forall|x: Seq<char>|
                                #[trigger] flows_in(
                                    ir_vars::successors(b@.terminator),
                                    ls,
                                    sets,
                                    ir_vars::all_defined(b@),
                                    x,
                                ) implies sets[i as int].contains(x) by {
                                assert(ir_vars::names(add@).contains(x));
                            }
                        }
                    }
                },
                None => {
                    assert(settled(blocks, ls, name_sets(req@), i as int));
                },
            }
        }
    }
    proof {
        settled_is_complete(blocks, ls, req@, all);
    }
    req
}

/// What is wrong with a program.
#[derive(Debug)]
pub enum ProgramError {
    MissingEntry { block: BlockId },
    MissingTarget { from: BlockId, to: BlockId },
    ArityMismatch { from: BlockId, to: BlockId, expected: usize, got: usize },
    UsedBeforeDefinition { var: String },
    NotLocal { var: String, block: BlockId },
    MissingRename { var: String },
}

/// The model of what is wrong with a program.
pub enum ProgramErrorV {
    MissingEntry { block: u32 },
    MissingTarget { from: u32, to: u32 },
    ArityMismatch { from: u32, to: u32, expected: nat, got: nat },
    UsedBeforeDefinition { var: Seq<char> },
    NotLocal { var: Seq<char>, block: u32 },
    MissingRename { var: Seq<char> },
}

impl ProgramError {
    pub open spec fn view(&self) -> ProgramErrorV {
        match self {
            ProgramError::MissingEntry { block } => ProgramErrorV::MissingEntry { block: block.0 },
            ProgramError::MissingTarget { from, to } => ProgramErrorV::MissingTarget {
                from: from.0,
                to: to.0,
            },
            ProgramError::ArityMismatch {
                from,
                to,
                expected,
                got,
            } => ProgramErrorV::ArityMismatch {
                from: from.0,
                to: to.0,
                expected: *expected as nat,
                got: *got as nat,
            },
            ProgramError::UsedBeforeDefinition { var } => ProgramErrorV::UsedBeforeDefinition {
                var: var@,
            },
            ProgramError::NotLocal { var, block } => ProgramErrorV::NotLocal {
                var: var@,
                block: block.0,
            },
            ProgramError::MissingRename { var } => ProgramErrorV::MissingRename { var: var@ },
        }
    }
}

/// How a block label is shown.
pub open spec fn label_text(id: u32) -> Seq<char> {
    "BlockId("@ + text::decimal(id as nat) + ")"@
}

/// How a variable is shown.
pub open spec fn var_text(name: Seq<char>) -> Seq<char> {
    "Var("@ + text::quoted(name) + ")"@
}

/// The message of a program error.
pub open spec fn program_error_text(e: ProgramErrorV) -> Seq<char> {
    match e {
        ProgramErrorV::MissingEntry { block } => "AgentIR entry block "@ + label_text(block)
            + " does not exist"@,
        ProgramErrorV::MissingTarget { from, to } => "AgentIR block "@ + label_text(from)
            + " goes to unknown block "@ + label_text(to),
        ProgramErrorV::ArityMismatch { from, to, expected, got } => "AgentIR edge from "@
            + label_text(from) + " to "@ + label_text(to) + " expected "@ + text::decimal(expected)
            + " args, got "@ + text::decimal(got),
        ProgramErrorV::UsedBeforeDefinition { var } => "AgentIR variable "@ + var_text(var)
            + " is used before definition"@,
        ProgramErrorV::NotLocal { var, block } => "AgentIR strict SSA violation: variable "@
            + var_text(var) + " is not local to block "@ + label_text(block),
        ProgramErrorV::MissingRename { var } => "normalization internal error: missing rename for "@
            + var_text(var),
    }
}

/// How a block label is shown.
pub(crate) fn show_label(id: BlockId) -> (r: String)
    ensures
        r@ == label_text(id.0),
{
    let mut out = "BlockId(".to_owned();
    out.append(decimal_of(id.0 as u128).as_str());
    out.append(")");
    out
}

/// How a variable is shown.
pub(crate) fn show_var(name: &str) -> (r: String)
    ensures
        r@ == var_text(name@),
{
    let mut out = "Var(".to_owned();
    out.append(debug_quoted(name).as_str());
    out.append(")");
    out
}

impl ProgramError {
    /// The message of the error.
    pub fn message(&self) -> (r: String)
        ensures
            r@ == program_error_text(self@),
    {
        match self {
            ProgramError::MissingEntry { block } => {
                let mut out = "AgentIR entry block ".to_owned();
                out.append(show_label(*block).as_str());
                out.append(" does not exist");
                out
            },
            ProgramError::MissingTarget { from, to } => {
                let mut out = "AgentIR block ".to_owned();
                out.append(show_label(*from).as_str());
                out.append(" goes to unknown block ");
                out.append(show_label(*to).as_str());
                out
            },
            ProgramError::ArityMismatch { from, to, expected, got } => {
                let mut out = "AgentIR edge from ".to_owned();
                out.append(show_label(*from).as_str());
                out.append(" to ");
                out.append(show_label(*to).as_str());
                out.append(" expected ");
                out.append(decimal_of(*expected as u128).as_str());
                out.append(" args, got ");
                out.append(decimal_of(*got as u128).as_str());
                out
            },
            ProgramError::UsedBeforeDefinition { var } => {
                let mut out = "AgentIR variable ".to_owned();
                out.append(show_var(var.as_str()).as_str());
                out.append(" is used before definition");
                out
            },
            ProgramError::NotLocal { var, block } => {
                let mut out = "AgentIR strict SSA violation: variable ".to_owned();
                out.append(show_var(var.as_str()).as_str());
                out.append(" is not local to block ");
                out.append(show_label(*block).as_str());
                out
            },
            ProgramError::MissingRename { var } => {
                let mut out = "normalization internal error: missing rename for ".to_owned();
                out.append(show_var(var.as_str()).as_str());
                out
            },
        }
    }
}

/// The edge goes to a block that takes as many arguments as the edge carries.
pub open spec fn edge_ok(blocks: Blocks, edge: (u32, nat)) -> bool {
    match ir::block_at(blocks, edge.0) {
        Some(t) => t.params.len() == edge.1,
        None => false,
    }
}

/// All edges of a block are in order.
pub open spec fn edges_ok(blocks: Blocks, b: BlockV) -> bool {
    forall|k: int|
        0 <= k < ir_vars::arities(b.terminator).len() ==> edge_ok(
            blocks,
            #[trigger] ir_vars::arities(b.terminator)[k],
        )
}

/// The entry exists and all edges are in order.
pub open spec fn well_formed(p: ProgramV) -> bool {
    &&& ir::block_at(p.blocks, p.entry) is Some
    &&& forall|i: int| 0 <= i < p.blocks.len() ==> edges_ok(p.blocks, (#[trigger] p.blocks[i]).1)
}

/// A program is valid: it is well-formed, and on no path from the entry is a
/// variable read before it is defined.
pub open spec fn valid(p: ProgramV) -> bool {
    well_formed(p) && required(p.blocks, p.entry) == Set::<Seq<char>>::empty()
}

/// A block reads only what it defines itself, as a parameter or earlier in
/// the block.
pub open spec fn local(b: BlockV) -> bool {
    ir_vars::free_vars(b) == Set::<Seq<char>>::empty()
}

/// Strict SSA form: valid, and every block is local.
pub open spec fn strict_ssa(p: ProgramV) -> bool {
    valid(p) && forall|i: int| 0 <= i < p.blocks.len() ==> local((#[trigger] p.blocks[i]).1)
}

/// The first `n` blocks are local.
pub open spec fn all_local(blocks: Blocks, n: int) -> bool {
    forall|i: int| 0 <= i < n ==> local((#[trigger] blocks[i]).1)
}

/// The least text of a set.
pub open spec fn is_least(s: Set<Seq<char>>, x: Seq<char>) -> bool {
    s.contains(x) && forall|y: Seq<char>| #[trigger] s.contains(y) ==> y == x || text::text_lt(x, y)
}

/// Whether an instruction reads only what its block has defined so far.
pub open spec fn reads_locally(b: BlockV, k: int) -> bool {
    ir_vars::uses(b.instructions[k]).subset_of(ir_vars::defined_by(b, k))
}

/// The first variable that a block reads without having defined it: the least
/// such variable of the first instruction that reads one, or of the
/// terminator.
pub open spec fn is_first_foreign(b: BlockV, x: Seq<char>) -> bool {
    let n = b.instructions.len() as int;
    ||| exists|k: int|
        0 <= k < n && is_least(
            (#[trigger] ir_vars::uses(b.instructions[k])).difference(ir_vars::defined_by(b, k)),
            x,
        ) && forall|j: int| 0 <= j < k ==> #[trigger] reads_locally(b, j)
    ||| is_least(ir_vars::value_uses(b.terminator).difference(ir_vars::all_defined(b)), x)
        && forall|j: int| 0 <= j < n ==> #[trigger] reads_locally(b, j)
}

/// The error names something that is wrong with the program.
pub open spec fn is_wrong(p: ProgramV, e: ProgramErrorV) -> bool {
    match e {
        ProgramErrorV::MissingEntry { block } => block == p.entry && ir::block_at(
            p.blocks,
            p.entry,
        ) is None,
        ProgramErrorV::MissingTarget { from, to } => exists|i: int, k: int|
            0 <= i < p.blocks.len() && p.blocks[i].0 == from && 0 <= k < ir_vars::arities(
                p.blocks[i].1.terminator,
            ).len() && (#[trigger] ir_vars::arities(p.blocks[i].1.terminator)[k]).0 == to
                && ir::block_at(p.blocks, to) is None,
        ProgramErrorV::ArityMismatch { from, to, expected, got } => exists|i: int, k: int|
            0 <= i < p.blocks.len() && p.blocks[i].0 == from && 0 <= k < ir_vars::arities(
                p.blocks[i].1.terminator,
            ).len() && #[trigger] ir_vars::arities(p.blocks[i].1.terminator)[k] == (to, got)
                && ir::block_at(p.blocks, to) is Some && ir::block_at(
                p.blocks,
                to,
            )->0.params.len() == expected && expected != got,
        ProgramErrorV::UsedBeforeDefinition { var } => well_formed(p) && required(
            p.blocks,
            p.entry,
        ).contains(var),
        ProgramErrorV::NotLocal { var, block } => valid(p) && exists|i: int|
            0 <= i < p.blocks.len() && (#[trigger] p.blocks[i]).0 == block && is_first_foreign(
                p.blocks[i].1,
                var,
            ) && all_local(p.blocks, i),
        ProgramErrorV::MissingRename { .. } => false,
    }
}

/// Checks the edges of one block.
fn check_edges(p: &Program, i: usize) -> (r: Result<(), ProgramError>)
    requires
        i < p.blocks@.len(),
    ensures
        match r {
            Ok(()) => edges_ok(p@.blocks, p@.blocks[i as int].1),
            Err(e) => !edges_ok(p@.blocks, p@.blocks[i as int].1) && is_wrong(p@, e@),
        },
{
    let from = p.blocks[i].0;
    let list = terminator_edges_with_args(&p.blocks[i].1.terminator);
    let ghost ar = ir_vars::arities(p@.blocks[i as int].1.terminator);
    let mut k: usize = 0;
    while k < list.len()
        invariant
            k <= list@.len(),
            i < p.blocks@.len(),
            from == p.blocks@[i as int].0,
            ar == ir_vars::arities(p@.blocks[i as int].1.terminator),
            ir_vars::counted(list@) == ar,
            forall|j: int| 0 <= j < k ==> edge_ok(p@.blocks, #[trigger] ar[j]),
        decreases list@.len() - k,
    {
        let (to, got) = list[k];
        assert(ar[k as int] == (to.0, got as nat)) by {
            assert(ir_vars::counted(list@)[k as int] == (to.0, got as nat));
        }
        assert(p@.blocks[i as int].0 == from.0);
        match p.block(to) {
            None => {
                assert(!edge_ok(p@.blocks, ar[k as int]));
                assert(ir_vars::arities(p@.blocks[i as int].1.terminator)[k as int].0 == to.0);
                return Err(ProgramError::MissingTarget { from, to });
            },
            Some(t) => {
                let expected: usize = t.params.len();
                assert(t@.params.len() == expected);
                if expected != got {
                    assert(!edge_ok(p@.blocks, ar[k as int]));
                    assert(ir_vars::arities(p@.blocks[i as int].1.terminator)[k as int] == (
                        to.0,
                        got as nat,
                    ));
                    return Err(ProgramError::ArityMismatch { from, to, expected, got });
                }
            },
        }
        k += 1;
    }
    Ok(())
}

/// Checks that a program is valid.
pub fn validate_program(p: &Program) -> (r: Result<(), ProgramError>)
    ensures
        match r {
            Ok(()) => valid(p@),
            Err(e) => !valid(p@) && is_wrong(p@, e@),
        },
{
    if p.block(p.entry).is_none() {
        return Err(ProgramError::MissingEntry { block: p.entry });
    }
    let mut i: usize = 0;
    while i < p.blocks.len()
        invariant
            i <= p.blocks@.len(),
            ir::block_at(p@.blocks, p@.entry) is Some,
            forall|j: int| 0 <= j < i ==> edges_ok(p@.blocks, (#[trigger] p@.blocks[j]).1),
        decreases p.blocks@.len() - i,
    {
        if let Err(e) = check_edges(p, i) {
            assert(!edges_ok(p@.blocks, p@.blocks[i as int].1));
            return Err(e);
        }
        i += 1;
    }
    let ids = reachable_blocks(p);
    proof {
        reached_facts(p@);
    }
    let req = required_block_params(p, &ids);
    assert(ir::labels(ids@)[0] == p@.entry);
    if req[0].len() > 0 {
        let var = req[0][0].clone();
        assert(op::texts(req@[0]@)[0] == var@);
        assert(ir_vars::names(req@[0]@).contains(var@));
        return Err(ProgramError::UsedBeforeDefinition { var });
    }
    assert(required(p@.blocks, p@.entry) =~= Set::<Seq<char>>::empty()) by {
        assert(ir_vars::names(req@[0]@) =~= Set::empty());
    }
    Ok(())
}

/// The least of some names that are not defined.
fn least_undefined(used: &Vec<String>, defined: &Vec<String>) -> (r: Option<String>)
    ensures
        match r {
            Some(x) => is_least(ir_vars::names(used@).difference(ir_vars::names(defined@)), x@),
            None => ir_vars::names(used@).subset_of(ir_vars::names(defined@)),
        },
{
    let ghost us = op::texts(used@);
    let ghost known = ir_vars::names(defined@);
    let mut best: Option<String> = None;
    let mut i: usize = 0;
    assert(us.take(0) =~= Seq::empty());
    while i < used.len()
        invariant
            i <= used@.len(),
            us == op::texts(used@),
            known == ir_vars::names(defined@),
            match best {
                Some(x) => is_least(us.take(i as int).to_set().difference(known), x@),
                None => us.take(i as int).to_set().subset_of(known),
            },
        decreases used@.len() - i,
    {
        let ghost before = us.take(i as int).to_set();
        let ghost old_best = best;
        proof {
            ir_vars::take_to_set(us, i as int);
        }
        assert(us[i as int] == used@[i as int]@);
        if !has_name(defined, &used[i]) {
            best = match best {
                Some(x) => if precedes(used[i].as_str(), x.as_str()) {
                    Some(used[i].clone())
                } else {
                    Some(x)
                },
                None => Some(used[i].clone()),
            };
        }
        let ghost after = us.take(i + 1).to_set();
        proof {
            assert(after == before.insert(us[i as int]));
            if best is Some {
                let x = best->0@;
                assert forall|y: Seq<char>| #[trigger]
                    after.difference(known).contains(y) implies y == x || text::text_lt(x, y) by {
                    if y != us[i as int] {
                        assert(before.difference(known).contains(y));
                        if old_best is Some && x == us[i as int] && old_best->0@ != x {
                            if y != old_best->0@ {
                                text::text_lt_transitive(x, old_best->0@, y);
                            }
                        }
                    } else if old_best is Some {
                        text::text_lt_total(us[i as int], old_best->0@);
                    }
                }
                assert(after.difference(known).contains(x));
            }
        }
        i += 1;
    }
    assert(us.take(i as int) =~= us);
    best
}

/// The first variable that a block reads without having defined it.
fn first_foreign(b: &Block) -> (r: Option<String>)
    ensures
        match r {
            Some(x) => is_first_foreign(b@, x@) && !local(b@),
            None => local(b@),
        },
{
    let mut defined = var_strings(&b.params);
    let mut i: usize = 0;
    assert(ir_vars::free_before(b@, 0) =~= Set::empty());
    while i < b.instructions.len()
        invariant
            i <= b.instructions@.len(),
            ir_vars::distinct(defined@),
            ir_vars::names(defined@) == ir_vars::defined_by(b@, i as int),
            ir_vars::free_before(b@, i as int) == Set::<Seq<char>>::empty(),
            forall|j: int| 0 <= j < i ==> #[trigger] reads_locally(b@, j),
        decreases b.instructions@.len() - i,
    {
        let used = instr_uses(&b.instructions[i]);
        assert(b@.instructions[i as int] == b.instructions@[i as int]@);
        match least_undefined(&used, &defined) {
            Some(x) => {
                proof {
                    free_before_grows(b@, i + 1, b@.instructions.len() as int);
                    assert(ir_vars::free_before(b@, i + 1).contains(x@));
                    assert(ir_vars::free_vars(b@).contains(x@));
                    assert(is_least(
                        ir_vars::uses(b@.instructions[i as int]).difference(
                            ir_vars::defined_by(b@, i as int),
                        ),
                        x@,
                    ));
                }
                return Some(x);
            },
            None => {},
        }
        assert(reads_locally(b@, i as int));
        assert(ir_vars::free_before(b@, i + 1) =~= Set::<Seq<char>>::empty());
        if let Some(v) = instr_out_public(&b.instructions[i]) {
            insert_name(&mut defined, &v.0);
        }
        i += 1;
    }
    let value = terminator_value_uses(&b.terminator);
    let r = least_undefined(&value, &defined);
    proof {
        control_uses_are_value_uses(b@.terminator);
        if r is Some {
            assert(ir_vars::free_vars(b@).contains(r->0@));
        } else {
            assert(ir_vars::free_vars(b@) =~= Set::<Seq<char>>::empty());
        }
    }
    r
}

/// What decides where a terminator goes is among what it reads.
proof fn control_uses_are_value_uses(t: TerminatorV)
    ensures
        ir_vars::control_uses(t).subset_of(ir_vars::value_uses(t)),
{
}

/// More instructions read no fewer undefined variables.
proof fn free_before_grows(b: BlockV, m: int, n: int)
    requires
        m <= n,
    ensures
        ir_vars::free_before(b, m).subset_of(ir_vars::free_before(b, n)),
    decreases n - m,
{
    if m < n {
        free_before_grows(b, m, n - 1);
        if n <= 0 {
            assert(ir_vars::free_before(b, m) =~= Set::<Seq<char>>::empty());
        }
    }
}

/// Checks that a program is in strict SSA form.
pub fn validate_strict_ssa_program(p: &Program) -> (r: Result<(), ProgramError>)
    ensures
        match r {
            Ok(()) => strict_ssa(p@),
            Err(e) => !strict_ssa(p@) && is_wrong(p@, e@),
        },
{
    validate_program(p)?;
    let mut i: usize = 0;
    while i < p.blocks.len()
        invariant
            i <= p.blocks@.len(),
            valid(p@),
            all_local(p@.blocks, i as int),
        decreases p.blocks@.len() - i,
    {
        assert(p@.blocks[i as int] == (p.blocks@[i as int].0.0, p.blocks@[i as int].1@));
        if let Some(var) = first_foreign(&p.blocks[i].1) {
            return Err(ProgramError::NotLocal { var, block: p.blocks[i].0 });
        }
        i += 1;
    }
    Ok(())
}

} // verus!
