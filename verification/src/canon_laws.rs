//! What the canonical form does not depend on: how blocks are numbered, how
//! variables are named, and whether it has been taken before.
use crate::ir;
use crate::ir::{
    BlockV, Blocks, EvalRequestV, ExprV, InstrV, MatchArmV, ProgramV, PromptRefV, TerminatorV,
};
use crate::ir_flow;
use crate::ir_hash;
use crate::ir_normalize;
use crate::ir_normalize::Naming;
use crate::ir_vars;
use crate::normal_laws;
use crate::text;
use vstd::prelude::*;

verus! {

/// A terminator that goes to other labels.
pub open spec fn moved(t: TerminatorV, to: spec_fn(u32) -> u32) -> TerminatorV {
    match t {
        TerminatorV::Goto { block, args } => TerminatorV::Goto { block: to(block), args },
        TerminatorV::If { cond, then_block, then_args, else_block, else_args } => TerminatorV::If {
            cond,
            then_block: to(then_block),
            then_args,
            else_block: to(else_block),
            else_args,
        },
        TerminatorV::Match { value, arms, default, default_args } => TerminatorV::Match {
            value,
            arms: Seq::new(
                arms.len(),
                |i: int|
                    MatchArmV {
                        pattern: arms[i].pattern,
                        block: to(arms[i].block),
                        args: arms[i].args,
                    },
            ),
            default: match default {
                Some(d) => Some(to(d)),
                None => None,
            },
            default_args,
        },
        TerminatorV::Return { value } => TerminatorV::Return { value },
        TerminatorV::Par { branches, join } => TerminatorV::Par {
            branches: Seq::new(branches.len(), |i: int| to(branches[i])),
            join: to(join),
        },
    }
}

/// A block that goes to other labels.
pub open spec fn moved_block(b: BlockV, to: spec_fn(u32) -> u32) -> BlockV {
    BlockV {
        params: b.params,
        instructions: b.instructions,
        terminator: moved(b.terminator, to),
    }
}

/// Whether a label carries a block.
pub open spec fn carried(blocks: Blocks, id: u32) -> bool {
    ir::block_at(blocks, id) is Some
}

/// The labels that carry blocks.
pub open spec fn carriers(blocks: Blocks) -> Set<u32> {
    Set::new(|id: u32| carried(blocks, id))
}

/// Whether no two labels of a set go to the same label.
pub open spec fn apart(d: Set<u32>, to: spec_fn(u32) -> u32) -> bool {
    forall|a: u32, b: u32|
        d.contains(a) && d.contains(b) && #[trigger] to(a) == #[trigger] to(b) ==> a == b
}

/// Whether a program is another one with its blocks numbered anew, in a table
/// of any order.
pub open spec fn renumbering(p: ProgramV, q: ProgramV, to: spec_fn(u32) -> u32) -> bool {
    &&& q.entry == to(p.entry)
    &&& apart(carriers(p.blocks), to)
    &&& forall|id: u32|
        #![trigger to(id)]
        carried(p.blocks, id) ==> ir::block_at(q.blocks, to(id)) == Some(
            moved_block(ir::block_at(p.blocks, id)->0, to),
        )
}

proof fn moved_successors(t: TerminatorV, to: spec_fn(u32) -> u32)
    ensures
        ir_vars::successors(moved(t, to)) == ir_vars::successors(t).map_values(to),
{
    let a = ir_vars::edges(t);
    let b = ir_vars::edges(moved(t, to));
    assert(a.len() == b.len());
    assert forall|i: int| 0 <= i < a.len() implies b[i].0 == to(a[i].0) by {}
    assert(ir_vars::successors(moved(t, to)) =~= ir_vars::successors(t).map_values(to));
}

proof fn moved_uses(t: TerminatorV, to: spec_fn(u32) -> u32)
    ensures
        ir_vars::value_uses(moved(t, to)) == ir_vars::value_uses(t),
        ir_vars::control_uses(moved(t, to)) == ir_vars::control_uses(t),
{
    if let TerminatorV::Match { value, arms, default, default_args } = t {
        same_args(arms, moved(t, to)->arms);
    }
}

proof fn same_args(a: Seq<MatchArmV>, b: Seq<MatchArmV>)
    requires
        a.len() == b.len(),
        forall|i: int| 0 <= i < a.len() ==> (#[trigger] a[i]).args == b[i].args,
    ensures
        ir_vars::arms_vars(a) == ir_vars::arms_vars(b),
    decreases a.len(),
{
    if a.len() > 0 {
        assert forall|i: int| 0 <= i < a.len() - 1 implies (#[trigger] a.drop_last()[i]).args
            == b.drop_last()[i].args by {
            assert(a[i].args == b[i].args);
        }
        same_args(a.drop_last(), b.drop_last());
        assert(a[a.len() - 1].args == b[a.len() - 1].args);
    }
}

proof fn same_body(b: BlockV, c: BlockV, n: int)
    requires
        b.params == c.params,
        b.instructions == c.instructions,
    ensures
        ir_vars::defined_by(b, n) == ir_vars::defined_by(c, n),
        ir_vars::free_before(b, n) == ir_vars::free_before(c, n),
    decreases n,
{
    if n > 0 {
        same_body(b, c, n - 1);
    }
}

proof fn moved_block_vars(b: BlockV, to: spec_fn(u32) -> u32)
    ensures
        ir_vars::free_vars(moved_block(b, to)) == ir_vars::free_vars(b),
        ir_vars::all_defined(moved_block(b, to)) == ir_vars::all_defined(b),
{
    same_body(b, moved_block(b, to), b.instructions.len() as int);
    moved_uses(b.terminator, to);
}

proof fn moved_holds(s: Seq<u32>, d: Set<u32>, to: spec_fn(u32) -> u32, x: u32)
    requires
        apart(d, to),
        d.contains(x),
        forall|i: int| 0 <= i < s.len() ==> d.contains(#[trigger] s[i]),
    ensures
        s.map_values(to).contains(to(x)) == s.contains(x),
{
    let m = s.map_values(to);
    if s.contains(x) {
        let i = s.index_of(x);
        assert(m[i] == to(x));
    }
    if m.contains(to(x)) {
        let i = m.index_of(to(x));
        assert(m[i] == to(s[i]));
        assert(s[i] == x);
    }
}

/// Going to other labels throughout visits the moved labels.
proof fn preorder_moves(
    a: Blocks,
    b: Blocks,
    d: Set<u32>,
    to: spec_fn(u32) -> u32,
    todo: Seq<u32>,
    seen: Seq<u32>,
)
    requires
        apart(d, to),
        forall|x: u32|
            #![trigger to(x)]
            d.contains(x) ==> ir_flow::next_labels(b, to(x)) == ir_flow::next_labels(
                a,
                x,
            ).map_values(to),
        forall|x: u32, k: int|
            d.contains(x) && 0 <= k < ir_flow::next_labels(a, x).len() ==> d.contains(
                #[trigger] ir_flow::next_labels(a, x)[k],
            ),
        forall|i: int| 0 <= i < todo.len() ==> d.contains(#[trigger] todo[i]),
        forall|i: int| 0 <= i < seen.len() ==> d.contains(#[trigger] seen[i]),
    ensures
        ir_flow::preorder(b, todo.map_values(to), seen.map_values(to)) == ir_flow::preorder(
            a,
            todo,
            seen,
        ).map_values(to),
    decreases ir_flow::unseen(a, seen), todo.len(),
{
    if todo.len() > 0 {
        let x = todo[0];
        let rest = todo.drop_first();
        assert(todo.map_values(to).drop_first() =~= rest.map_values(to));
        assert(todo.map_values(to)[0] == to(x));
        moved_holds(seen, d, to, x);
        assert forall|i: int| 0 <= i < rest.len() implies d.contains(#[trigger] rest[i]) by {
            assert(rest[i] == todo[i + 1]);
        }
        if seen.contains(x) {
            preorder_moves(a, b, d, to, rest, seen);
        } else {
            ir_flow::unseen_step(a, seen, x);
            ir::block_at_found(a, x);
            let more = ir_flow::next_labels(a, x) + rest;
            let now = seen.push(x);
            assert(ir_flow::next_labels(b, to(x)) + rest.map_values(to) =~= more.map_values(to));
            assert(seen.map_values(to).push(to(x)) =~= now.map_values(to));
            assert forall|i: int| 0 <= i < more.len() implies d.contains(#[trigger] more[i]) by {
                if i < ir_flow::next_labels(a, x).len() {
                    assert(more[i] == ir_flow::next_labels(a, x)[i]);
                } else {
                    assert(more[i] == rest[i - ir_flow::next_labels(a, x).len()]);
                }
            }
            assert forall|i: int| 0 <= i < now.len() implies d.contains(#[trigger] now[i]) by {
                if i < seen.len() {
                    assert(now[i] == seen[i]);
                }
            }
            preorder_moves(a, b, d, to, more, now);
        }
    } else {
        assert(todo.map_values(to).len() == 0);
    }
}

/// In a well-formed program every successor carries a block.
proof fn successors_carry(p: ProgramV, x: u32, k: int)
    requires
        ir_flow::well_formed(p),
        0 <= k < ir_flow::next_labels(p.blocks, x).len(),
    ensures
        carried(p.blocks, ir_flow::next_labels(p.blocks, x)[k]),
{
    ir::block_at_found(p.blocks, x);
    let b = ir::block_at(p.blocks, x)->0;
    let m = choose|m: int| 0 <= m < p.blocks.len() && (#[trigger] p.blocks[m]) == (x, b);
    assert(ir_flow::edges_ok(p.blocks, p.blocks[m].1));
    assert(ir_flow::edge_ok(p.blocks, ir_vars::arities(b.terminator)[k]));
}

proof fn renumbering_moves(p: ProgramV, q: ProgramV, to: spec_fn(u32) -> u32, x: u32)
    requires
        renumbering(p, q, to),
        carried(p.blocks, x),
    ensures
        ir::block_at(q.blocks, to(x)) == Some(moved_block(ir::block_at(p.blocks, x)->0, to)),
        ir_flow::next_labels(q.blocks, to(x)) == ir_flow::next_labels(p.blocks, x).map_values(to),
{
    moved_successors((ir::block_at(p.blocks, x)->0).terminator, to);
}

proof fn renumbering_reaches(p: ProgramV, q: ProgramV, to: spec_fn(u32) -> u32)
    requires
        ir_flow::well_formed(p),
        renumbering(p, q, to),
    ensures
        ir_flow::reached(q) == ir_flow::reached(p).map_values(to),
{
    let d = carriers(p.blocks);
    assert forall|x: u32|
        #![trigger to(x)]
        d.contains(x) implies ir_flow::next_labels(q.blocks, to(x)) == ir_flow::next_labels(
        p.blocks,
        x,
    ).map_values(to) by {
        renumbering_moves(p, q, to, x);
    }
    assert forall|x: u32, k: int|
        d.contains(x) && 0 <= k < ir_flow::next_labels(p.blocks, x).len() implies d.contains(
        #[trigger] ir_flow::next_labels(p.blocks, x)[k],
    ) by {
        successors_carry(p, x, k);
    }
    let todo = seq![p.entry];
    let none: Seq<u32> = Seq::empty();
    assert(todo.map_values(to) =~= seq![q.entry]);
    assert(none.map_values(to) =~= none);
    preorder_moves(p.blocks, q.blocks, d, to, todo, none);
}

proof fn renumbering_needs(
    p: ProgramV,
    q: ProgramV,
    to: spec_fn(u32) -> u32,
    id: u32,
    v: Seq<char>,
    n: nat,
)
    requires
        ir_flow::well_formed(p),
        renumbering(p, q, to),
        carried(p.blocks, id),
    ensures
        ir_flow::needs(q.blocks, to(id), v, n) == ir_flow::needs(p.blocks, id, v, n),
    decreases n,
{
    let b = ir::block_at(p.blocks, id)->0;
    let here = ir_flow::next_labels(p.blocks, id);
    let there = ir_flow::next_labels(q.blocks, to(id));
    renumbering_moves(p, q, to, id);
    moved_block_vars(b, to);
    assert(there.len() == here.len());
    if n > 0 && !ir_vars::free_vars(b).contains(v) {
        assert forall|k: int| 0 <= k < here.len() implies ir_flow::needs(
            q.blocks,
            #[trigger] there[k],
            v,
            (n - 1) as nat,
        ) == ir_flow::needs(p.blocks, here[k], v, (n - 1) as nat) by {
            successors_carry(p, id, k);
            assert(there[k] == to(here[k]));
            renumbering_needs(p, q, to, here[k], v, (n - 1) as nat);
        }
        if ir_flow::needs(p.blocks, id, v, n) {
            let k = choose|k: int|
                0 <= k < here.len() && ir_flow::needs(
                    p.blocks,
                    #[trigger] here[k],
                    v,
                    (n - 1) as nat,
                );
            assert(ir_flow::needs(q.blocks, there[k], v, (n - 1) as nat));
        }
        if ir_flow::needs(q.blocks, to(id), v, n) {
            let k = choose|k: int|
                0 <= k < there.len() && ir_flow::needs(
                    q.blocks,
                    #[trigger] there[k],
                    v,
                    (n - 1) as nat,
                );
            assert(ir_flow::needs(p.blocks, here[k], v, (n - 1) as nat));
        }
    }
}

proof fn renumbering_requires(p: ProgramV, q: ProgramV, to: spec_fn(u32) -> u32, id: u32)
    requires
        ir_flow::well_formed(p),
        renumbering(p, q, to),
        carried(p.blocks, id),
    ensures
        ir_flow::required(q.blocks, to(id)) == ir_flow::required(p.blocks, id),
{
    assert forall|v: Seq<char>| ir_flow::required(q.blocks, to(id)).contains(v)
        == ir_flow::required(p.blocks, id).contains(v) by {
        if ir_flow::required(p.blocks, id).contains(v) {
            let n = choose|n: nat| #[trigger] ir_flow::needs(p.blocks, id, v, n);
            renumbering_needs(p, q, to, id, v, n);
        }
        if ir_flow::required(q.blocks, to(id)).contains(v) {
            let n = choose|n: nat| #[trigger] ir_flow::needs(q.blocks, to(id), v, n);
            renumbering_needs(p, q, to, id, v, n);
        }
    }
    assert(ir_flow::required(q.blocks, to(id)) =~= ir_flow::required(p.blocks, id));
}

proof fn renumbering_orders(p: ProgramV, q: ProgramV, to: spec_fn(u32) -> u32, ids: Seq<u32>)
    requires
        renumbering(p, q, to),
        forall|i: int| 0 <= i < ids.len() ==> carried(p.blocks, #[trigger] ids[i]),
    ensures
        ir_normalize::def_order(q.blocks, ids.map_values(to)) == ir_normalize::def_order(
            p.blocks,
            ids,
        ),
    decreases ids.len(),
{
    if ids.len() > 0 {
        let less = ids.drop_last();
        assert(ids.map_values(to).drop_last() =~= less.map_values(to));
        assert(ids.map_values(to).last() == to(ids.last()));
        assert forall|i: int| 0 <= i < less.len() implies carried(p.blocks, #[trigger] less[i]) by {
            assert(less[i] == ids[i]);
        }
        assert(carried(p.blocks, ids[ids.len() - 1]));
        renumbering_orders(p, q, to, less);
        renumbering_moves(p, q, to, ids.last());
    } else {
        assert(ids.map_values(to).len() == 0);
    }
}

proof fn renumbering_args(
    p: ProgramV,
    q: ProgramV,
    to: spec_fn(u32) -> u32,
    order: Seq<Seq<char>>,
    x: u32,
    args: Seq<ExprV>,
)
    requires
        ir_flow::well_formed(p),
        renumbering(p, q, to),
        carried(p.blocks, x),
    ensures
        ir_normalize::ssa_args(q.blocks, order, to(x), args) == ir_normalize::ssa_args(
            p.blocks,
            order,
            x,
            args,
        ),
{
    renumbering_moves(p, q, to, x);
    renumbering_requires(p, q, to, x);
}

proof fn renumbering_terminates(
    p: ProgramV,
    q: ProgramV,
    to: spec_fn(u32) -> u32,
    order: Seq<Seq<char>>,
    id: u32,
)
    requires
        ir_flow::well_formed(p),
        renumbering(p, q, to),
        carried(p.blocks, id),
    ensures
        ({
            let t = (ir::block_at(p.blocks, id)->0).terminator;
            ir_normalize::ssa_terminator(q.blocks, order, moved(t, to)) == moved(
                ir_normalize::ssa_terminator(p.blocks, order, t),
                to,
            )
        }),
{
    let t = (ir::block_at(p.blocks, id)->0).terminator;
    let next = ir_flow::next_labels(p.blocks, id);
    let l = ir_normalize::ssa_terminator(q.blocks, order, moved(t, to));
    let r = moved(ir_normalize::ssa_terminator(p.blocks, order, t), to);
    assert forall|k: int| 0 <= k < next.len() implies carried(p.blocks, #[trigger] next[k]) by {
        successors_carry(p, id, k);
    }
    match t {
        TerminatorV::Goto { block, args } => {
            assert(next[0] == block);
            renumbering_args(p, q, to, order, block, args);
        },
        TerminatorV::If { cond, then_block, then_args, else_block, else_args } => {
            assert(next[0] == then_block);
            assert(next[1] == else_block);
            renumbering_args(p, q, to, order, then_block, then_args);
            renumbering_args(p, q, to, order, else_block, else_args);
        },
        TerminatorV::Match { value, arms, default, default_args } => {
            assert forall|i: int| 0 <= i < arms.len() implies (#[trigger] l->arms[i])
                == r->arms[i] by {
                assert(next[i] == arms[i].block);
                renumbering_args(p, q, to, order, arms[i].block, arms[i].args);
            }
            assert(l->arms =~= r->arms);
            if let Some(d) = default {
                assert(next[arms.len() as int] == d);
                renumbering_args(p, q, to, order, d, default_args);
            }
        },
        _ => {},
    }
}

proof fn position_moves(ids: Seq<u32>, d: Set<u32>, to: spec_fn(u32) -> u32, x: u32)
    requires
        apart(d, to),
        d.contains(x),
        forall|i: int| 0 <= i < ids.len() ==> d.contains(#[trigger] ids[i]),
    ensures
        ir_normalize::position(ids.map_values(to), to(x)) == ir_normalize::position(ids, x),
    decreases ids.len(),
{
    if ids.len() > 0 {
        let rest = ids.drop_first();
        assert(ids.map_values(to).drop_first() =~= rest.map_values(to));
        assert(ids.map_values(to)[0] == to(ids[0]));
        assert(d.contains(ids[0]));
        assert forall|i: int| 0 <= i < rest.len() implies d.contains(#[trigger] rest[i]) by {
            assert(rest[i] == ids[i + 1]);
        }
        position_moves(rest, d, to, x);
    } else {
        assert(ids.map_values(to).len() == 0);
    }
}

proof fn relabelling_undoes(
    t: TerminatorV,
    ids: Seq<u32>,
    d: Set<u32>,
    to: spec_fn(u32) -> u32,
)
    requires
        apart(d, to),
        forall|i: int| 0 <= i < ids.len() ==> d.contains(#[trigger] ids[i]),
        forall|k: int|
            0 <= k < ir_vars::successors(t).len() ==> d.contains(
                #[trigger] ir_vars::successors(t)[k],
            ),
    ensures
        ir_normalize::relabelled(moved(t, to), ids.map_values(to)) == ir_normalize::relabelled(
            t,
            ids,
        ),
{
    let next = ir_vars::successors(t);
    let l = ir_normalize::relabelled(moved(t, to), ids.map_values(to));
    let r = ir_normalize::relabelled(t, ids);
    match t {
        TerminatorV::Goto { block, args } => {
            assert(next[0] == block);
            position_moves(ids, d, to, block);
        },
        TerminatorV::If { cond, then_block, then_args, else_block, else_args } => {
            assert(next[0] == then_block);
            assert(next[1] == else_block);
            position_moves(ids, d, to, then_block);
            position_moves(ids, d, to, else_block);
        },
        TerminatorV::Match { value, arms, default, default_args } => {
            assert forall|i: int| 0 <= i < arms.len() implies (#[trigger] l->arms[i])
                == r->arms[i] by {
                assert(next[i] == arms[i].block);
                position_moves(ids, d, to, arms[i].block);
            }
            assert(l->arms =~= r->arms);
            if let Some(x) = default {
                assert(next[arms.len() as int] == x);
                position_moves(ids, d, to, x);
            }
        },
        TerminatorV::Return { value } => {},
        TerminatorV::Par { branches, join } => {
            assert forall|i: int| 0 <= i < branches.len() implies (#[trigger] l->branches[i])
                == r->branches[i] by {
                assert(next[i] == branches[i]);
                position_moves(ids, d, to, branches[i]);
            }
            assert(l->branches =~= r->branches);
            assert(next[branches.len() as int] == join);
            position_moves(ids, d, to, join);
        },
    }
}

proof fn ssa_found(p: ProgramV, i: int)
    requires
        ir_flow::well_formed(p),
        0 <= i < ir_flow::reached(p).len(),
    ensures
        ir::block_at(ir_normalize::ssa_program(p).blocks, ir_flow::reached(p)[i]) == Some(
            ir_normalize::ssa_program(p).blocks[i].1,
        ),
        carried(p.blocks, ir_flow::reached(p)[i]),
{
    ir_flow::reached_facts(p);
    ir_normalize::reached_are_present(p);
    ir_normalize::block_at_index(ir_normalize::ssa_program(p).blocks, i);
}

/// Numbering the blocks of a well-formed program anew, in a table of any
/// order, does not change its canonical form or its hash.
pub proof fn numbering_does_not_matter(p: ProgramV, q: ProgramV, to: spec_fn(u32) -> u32)
    requires
        ir_flow::well_formed(p),
        ir_flow::well_formed(q),
        renumbering(p, q, to),
    ensures
        ir_normalize::normal_form(q) == ir_normalize::normal_form(p),
        ir_flow::valid(q) == ir_flow::valid(p),
        ir_hash::canonical_digest(q) == ir_hash::canonical_digest(p),
{
    let d = carriers(p.blocks);
    let ids = ir_flow::reached(p);
    let a = ir_normalize::ssa_program(p);
    let b = ir_normalize::ssa_program(q);
    renumbering_requires(p, q, to, p.entry);
    renumbering_reaches(p, q, to);
    ir_normalize::ssa_reaches_the_same(p);
    ir_normalize::ssa_reaches_the_same(q);
    assert forall|i: int| 0 <= i < ids.len() implies d.contains(#[trigger] ids[i]) by {
        ssa_found(p, i);
    }
    renumbering_orders(p, q, to, ids);
    let order = ir_normalize::def_order(p.blocks, ids);
    let l = ir_normalize::renumbered(b).blocks;
    let r = ir_normalize::renumbered(a).blocks;
    assert forall|i: int| 0 <= i < ids.len() implies (#[trigger] l[i]) == r[i] by {
        let x = ids[i];
        let t = (ir::block_at(p.blocks, x)->0).terminator;
        let u = ir_normalize::ssa_terminator(p.blocks, order, t);
        ssa_found(p, i);
        ssa_found(q, i);
        assert(ir_flow::reached(q)[i] == to(x));
        renumbering_moves(p, q, to, x);
        renumbering_requires(p, q, to, x);
        renumbering_terminates(p, q, to, order, x);
        assert(ir_vars::successors(u) =~= ir_vars::successors(t));
        assert forall|k: int| 0 <= k < ir_vars::successors(u).len() implies d.contains(
            #[trigger] ir_vars::successors(u)[k],
        ) by {
            successors_carry(p, x, k);
        }
        relabelling_undoes(u, ids, d, to);
    }
    assert(l =~= r);
}

/// Whether renaming by `env` and then by `outer` is renaming by `both`.
pub open spec fn agrees(
    env: Map<Seq<char>, Seq<char>>,
    outer: Map<Seq<char>, Seq<char>>,
    both: Map<Seq<char>, Seq<char>>,
) -> bool {
    forall|v: Seq<char>|
        #![trigger env.contains_key(v)]
        env.contains_key(v) ==> ir_normalize::renamed_var(env[v], outer)
            == ir_normalize::renamed_var(v, both)
}

/// Renaming twice is renaming once, by the names that the two give together.
pub proof fn expr_twice(
    e: ExprV,
    env: Map<Seq<char>, Seq<char>>,
    outer: Map<Seq<char>, Seq<char>>,
    both: Map<Seq<char>, Seq<char>>,
)
    requires
        agrees(env, outer, both),
        ir_normalize::renamed_expr(e, env) is Some,
    ensures
        ir_normalize::renamed_expr(ir_normalize::renamed_expr(e, env)->0, outer)
            == ir_normalize::renamed_expr(e, both),
    decreases e,
{
    match e {
        ExprV::FieldOr { default, .. } => {
            expr_twice(*default, env, outer, both);
        },
        ExprV::StringOr { value, default } => {
            expr_twice(*value, env, outer, both);
            expr_twice(*default, env, outer, both);
        },
        ExprV::If { cond, then_value, else_value } => {
            expr_twice(*cond, env, outer, both);
            expr_twice(*then_value, env, outer, both);
            expr_twice(*else_value, env, outer, both);
        },
        ExprV::Index { index, .. } => {
            expr_twice(*index, env, outer, both);
        },
        ExprV::Eq { left, right } => {
            expr_twice(*left, env, outer, both);
            expr_twice(*right, env, outer, both);
        },
        ExprV::Lt { left, right } => {
            expr_twice(*left, env, outer, both);
            expr_twice(*right, env, outer, both);
        },
        ExprV::Or { left, right } => {
            expr_twice(*left, env, outer, both);
            expr_twice(*right, env, outer, both);
        },
        ExprV::And { left, right } => {
            expr_twice(*left, env, outer, both);
            expr_twice(*right, env, outer, both);
        },
        ExprV::Add { left, right } => {
            expr_twice(*left, env, outer, both);
            expr_twice(*right, env, outer, both);
        },
        ExprV::Sub { left, right } => {
            expr_twice(*left, env, outer, both);
            expr_twice(*right, env, outer, both);
        },
        ExprV::Push { value, .. } => {
            expr_twice(*value, env, outer, both);
        },
        ExprV::JsonParse { value } => {
            expr_twice(*value, env, outer, both);
        },
        ExprV::JsonParseOr { value, default } => {
            expr_twice(*value, env, outer, both);
            expr_twice(*default, env, outer, both);
        },
        ExprV::ToString { value } => {
            expr_twice(*value, env, outer, both);
        },
        ExprV::Concat { left, right } => {
            expr_twice(*left, env, outer, both);
            expr_twice(*right, env, outer, both);
        },
        ExprV::SelectToolResults { ids, .. } => {
            expr_twice(*ids, env, outer, both);
        },
        ExprV::Array(x) => {
            exprs_twice(x, env, outer, both);
        },
        ExprV::Object(x) => {
            named_twice(x, env, outer, both);
        },
        _ => {},
    }
}

proof fn exprs_twice(
    items: Seq<ExprV>,
    env: Map<Seq<char>, Seq<char>>,
    outer: Map<Seq<char>, Seq<char>>,
    both: Map<Seq<char>, Seq<char>>,
)
    requires
        agrees(env, outer, both),
        ir_normalize::renamed_exprs(items, env) is Some,
    ensures
        ir_normalize::renamed_exprs(ir_normalize::renamed_exprs(items, env)->0, outer)
            == ir_normalize::renamed_exprs(items, both),
        (ir_normalize::renamed_exprs(items, env)->0).len() == items.len(),
    decreases items,
{
    if items.len() > 0 {
        exprs_twice(items.drop_last(), env, outer, both);
        expr_twice(items[items.len() - 1], env, outer, both);
        let now = ir_normalize::renamed_exprs(items, env)->0;
        assert(now.drop_last() =~= ir_normalize::renamed_exprs(items.drop_last(), env)->0);
    }
}

proof fn named_twice(
    items: Seq<(Seq<char>, ExprV)>,
    env: Map<Seq<char>, Seq<char>>,
    outer: Map<Seq<char>, Seq<char>>,
    both: Map<Seq<char>, Seq<char>>,
)
    requires
        agrees(env, outer, both),
        ir_normalize::renamed_named(items, env) is Some,
    ensures
        ir_normalize::renamed_named(ir_normalize::renamed_named(items, env)->0, outer)
            == ir_normalize::renamed_named(items, both),
    decreases items,
{
    if items.len() > 0 {
        named_twice(items.drop_last(), env, outer, both);
        expr_twice(items[items.len() - 1].1, env, outer, both);
        let now = ir_normalize::renamed_named(items, env)->0;
        assert(now.drop_last() =~= ir_normalize::renamed_named(items.drop_last(), env)->0);
    }
}

proof fn uses_twice(
    i: InstrV,
    env: Map<Seq<char>, Seq<char>>,
    outer: Map<Seq<char>, Seq<char>>,
    both: Map<Seq<char>, Seq<char>>,
)
    requires
        agrees(env, outer, both),
        ir_normalize::renamed_uses(i, env) is Some,
    ensures
        ir_normalize::renamed_uses(ir_normalize::renamed_uses(i, env)->0, outer)
            == ir_normalize::renamed_uses(i, both),
        ir_vars::defines(ir_normalize::renamed_uses(i, env)->0) == ir_vars::defines(i),
{
    match i {
        InstrV::Let { expr, .. } => {
            expr_twice(expr, env, outer, both);
        },
        InstrV::Infer { model, prompt, .. } => {
            expr_twice(model, env, outer, both);
        },
        InstrV::Eval { request, .. } => {
            match request {
                EvalRequestV::Shell { command } => {
                    expr_twice(command, env, outer, both);
                },
                EvalRequestV::Argv { argv } => {
                    exprs_twice(argv, env, outer, both);
                },
            }
        },
        InstrV::Emit { event } => {
            expr_twice(event, env, outer, both);
        },
        InstrV::Retrieve { query, .. } => {
            expr_twice(query, env, outer, both);
        },
        InstrV::Store { sink, id, item, .. } => {
            expr_twice(sink, env, outer, both);
            if let Some(e) = id {
                expr_twice(e, env, outer, both);
            }
            expr_twice(item, env, outer, both);
        },
        InstrV::Tool { arguments, .. } => {
            expr_twice(arguments, env, outer, both);
        },
    }
}

proof fn arms_twice(
    arms: Seq<MatchArmV>,
    env: Map<Seq<char>, Seq<char>>,
    outer: Map<Seq<char>, Seq<char>>,
    both: Map<Seq<char>, Seq<char>>,
)
    requires
        agrees(env, outer, both),
        ir_normalize::renamed_arms(arms, env) is Some,
    ensures
        ir_normalize::renamed_arms(ir_normalize::renamed_arms(arms, env)->0, outer)
            == ir_normalize::renamed_arms(arms, both),
        (ir_normalize::renamed_arms(arms, env)->0).len() == arms.len(),
    decreases arms.len(),
{
    if arms.len() > 0 {
        arms_twice(arms.drop_last(), env, outer, both);
        exprs_twice(arms.last().args, env, outer, both);
        let now = ir_normalize::renamed_arms(arms, env)->0;
        assert(now.drop_last() =~= ir_normalize::renamed_arms(arms.drop_last(), env)->0);
    }
}

proof fn terminator_twice(
    t: TerminatorV,
    env: Map<Seq<char>, Seq<char>>,
    outer: Map<Seq<char>, Seq<char>>,
    both: Map<Seq<char>, Seq<char>>,
)
    requires
        agrees(env, outer, both),
        ir_normalize::renamed_terminator(t, env) is Some,
    ensures
        ir_normalize::renamed_terminator(ir_normalize::renamed_terminator(t, env)->0, outer)
            == ir_normalize::renamed_terminator(t, both),
{
    match t {
        TerminatorV::Goto { args, .. } => {
            exprs_twice(args, env, outer, both);
        },
        TerminatorV::If { cond, then_args, else_args, .. } => {
            expr_twice(cond, env, outer, both);
            exprs_twice(then_args, env, outer, both);
            exprs_twice(else_args, env, outer, both);
        },
        TerminatorV::Match { value, arms, default_args, .. } => {
            expr_twice(value, env, outer, both);
            arms_twice(arms, env, outer, both);
            exprs_twice(default_args, env, outer, both);
        },
        TerminatorV::Return { value } => {
            expr_twice(value, env, outer, both);
        },
        TerminatorV::Par { .. } => {},
    }
}

/// Whether a state of naming has every name that another has given, as
/// itself.
spec fn keeps(s: Naming, t: Naming) -> bool {
    t.next == s.next && agrees(s.env, t.env, s.env)
}

proof fn keeps_one_more(s: Naming, t: Naming, v: Seq<char>)
    requires
        keeps(s, t),
    ensures
        ({
            let x = ir_normalize::fresh(s.next);
            keeps(
                Naming { env: s.env.insert(v, x), next: s.next + 1 },
                Naming { env: t.env.insert(x, x), next: t.next + 1 },
            )
        }),
{
    let x = ir_normalize::fresh(s.next);
    let a = s.env.insert(v, x);
    let b = t.env.insert(x, x);
    assert forall|w: Seq<char>|
        #![trigger a.contains_key(w)]
        a.contains_key(w) implies ir_normalize::renamed_var(a[w], b) == ir_normalize::renamed_var(
        w,
        a,
    ) by {
        if w != v {
            assert(s.env.contains_key(w));
        }
    }
}

proof fn params_named_again(params: Seq<Seq<char>>, s: Naming, t: Naming)
    requires
        keeps(s, t),
    ensures
        keeps(
            ir_normalize::name_params(params, s),
            ir_normalize::name_params(
                Seq::new(params.len(), |i: int| ir_normalize::fresh((s.next + i) as nat)),
                t,
            ),
        ),
        ir_normalize::name_params(params, s).next == s.next + params.len(),
    decreases params.len(),
{
    let now = Seq::new(params.len(), |i: int| ir_normalize::fresh((s.next + i) as nat));
    if params.len() > 0 {
        let rest = params.drop_last();
        params_named_again(rest, s, t);
        assert(now.drop_last() =~= Seq::new(
            rest.len(),
            |i: int| ir_normalize::fresh((s.next + i) as nat),
        ));
        let a = ir_normalize::name_params(rest, s);
        let b = ir_normalize::name_params(now.drop_last(), t);
        keeps_one_more(a, b, params.last());
        assert(now.last() == ir_normalize::fresh(a.next));
    } else {
        assert(now.len() == 0);
    }
}

proof fn instrs_named_again(list: Seq<InstrV>, s: Naming, t: Naming)
    requires
        keeps(s, t),
        ir_normalize::name_instrs(list, s) is Some,
    ensures
        ({
            let first = ir_normalize::name_instrs(list, s)->0;
            let again = ir_normalize::name_instrs(first.0, t);
            again is Some && (again->0).0 == first.0 && keeps(first.1, (again->0).1)
        }),
    decreases list.len(),
{
    if list.len() > 0 {
        let i = list.last();
        instrs_named_again(list.drop_last(), s, t);
        let before = ir_normalize::name_instrs(list.drop_last(), s)->0;
        let twice = ir_normalize::name_instrs(before.0, t)->0;
        let first = ir_normalize::name_instrs(list, s)->0;
        let u = ir_normalize::renamed_uses(i, before.1.env)->0;
        uses_twice(i, before.1.env, twice.1.env, before.1.env);
        assert(first.0.drop_last() =~= before.0);
        let j = first.0.last();
        match ir_vars::defines(i) {
            Some(v) => {
                let x = ir_normalize::fresh(before.1.next);
                assert(j == ir_normalize::with_out(u, x));
                assert(ir_normalize::renamed_uses(j, twice.1.env) == Some(j));
                assert(ir_vars::defines(j) == Some(x));
                assert(ir_normalize::with_out(j, x) == j);
                keeps_one_more(before.1, twice.1, v);
            },
            None => {
                assert(j == u);
            },
        }
        assert(before.0.push(j) =~= first.0);
    }
}

proof fn block_named_again(b: BlockV, s: Naming, t: Naming)
    requires
        keeps(s, t),
        ir_normalize::name_block(b, s) is Some,
    ensures
        ({
            let first = ir_normalize::name_block(b, s)->0;
            let again = ir_normalize::name_block(first.0, t);
            again is Some && (again->0).0 == first.0 && keeps(first.1, (again->0).1)
        }),
{
    params_named_again(b.params, s, t);
    let s1 = ir_normalize::name_params(b.params, s);
    let first = ir_normalize::name_block(b, s)->0;
    let t1 = ir_normalize::name_params(first.0.params, t);
    instrs_named_again(b.instructions, s1, t1);
    let now = (ir_normalize::name_instrs(b.instructions, s1)->0).1;
    let then = (ir_normalize::name_instrs(first.0.instructions, t1)->0).1;
    terminator_twice(b.terminator, now.env, then.env, now.env);
    assert(Seq::new(
        first.0.params.len(),
        |i: int| ir_normalize::fresh((t.next + i) as nat),
    ) =~= first.0.params);
}

/// Naming what has been named changes nothing.
proof fn blocks_named_again(blocks: Blocks)
    requires
        ir_normalize::name_blocks(blocks) is Some,
    ensures
        ({
            let first = ir_normalize::name_blocks(blocks)->0;
            let again = ir_normalize::name_blocks(first.0);
            again is Some && (again->0).0 == first.0 && keeps(first.1, (again->0).1)
        }),
    decreases blocks.len(),
{
    if blocks.len() > 0 {
        blocks_named_again(blocks.drop_last());
        let before = ir_normalize::name_blocks(blocks.drop_last())->0;
        let twice = ir_normalize::name_blocks(before.0)->0;
        let first = ir_normalize::name_blocks(blocks)->0;
        block_named_again(blocks.last().1, before.1, twice.1);
        assert(first.0.drop_last() =~= before.0);
        assert(first.0 =~= before.0.push(first.0.last()));
    }
}

/// The labels of a numbered program in order.
spec fn counted(n: nat) -> Seq<u32> {
    Seq::new(n, |i: int| i as u32)
}

/// The place of a label as its new number.
spec fn placing(ids: Seq<u32>) -> spec_fn(u32) -> u32 {
    |x: u32| ir_normalize::relabel(ids, x)
}

proof fn placed(ids: Seq<u32>, i: int)
    requires
        ids.no_duplicates(),
        0 <= i < ids.len(),
    ensures
        placing(ids)(ids[i]) == i as u32,
        ids.len() <= 0x1_0000_0000,
{
    ir_normalize::distinct_labels_bound(ids);
    ir_normalize::position_is_first(ids, ids[i], i);
}

proof fn relabelling_moves(t: TerminatorV, ids: Seq<u32>)
    ensures
        ir_normalize::relabelled(t, ids) == moved(t, placing(ids)),
{
    let l = ir_normalize::relabelled(t, ids);
    let r = moved(t, placing(ids));
    match t {
        TerminatorV::Match { .. } => {
            assert(l->arms =~= r->arms);
        },
        TerminatorV::Par { .. } => {
            assert(l->branches =~= r->branches);
        },
        _ => {},
    }
}

/// Blocks numbered in order are found at their numbers.
proof fn numbered_found(blocks: Blocks, i: int)
    requires
        0 <= i < blocks.len() <= 0x1_0000_0000,
        forall|j: int| 0 <= j < blocks.len() ==> (#[trigger] blocks[j]).0 == j as u32,
    ensures
        ir::block_at(blocks, i as u32) == Some(blocks[i].1),
{
    assert forall|j: int| 0 <= j < i implies (#[trigger] blocks[j]).0 != blocks[i].0 by {}
    ir_normalize::block_at_index(blocks, i);
}

/// The numbered blocks are reached in the order of their numbers.
proof fn numbered_in_order(p: ProgramV)
    requires
        ir_normalize::all_present(p),
    ensures
        ir_flow::reached(ir_normalize::renumbered(p)) == counted(ir_flow::reached(p).len()),
        ir_flow::reached(p).len() <= 0x1_0000_0000,
{
    let ids = ir_flow::reached(p);
    let r = ir_normalize::renumbered(p);
    let to = placing(ids);
    let d = Set::new(|x: u32| ids.contains(x));
    ir_flow::reached_facts(p);
    ir_normalize::distinct_labels_bound(ids);
    assert forall|a: u32, b: u32|
        d.contains(a) && d.contains(b) && #[trigger] to(a) == #[trigger] to(b) implies a == b by {
        placed(ids, ids.index_of(a));
        placed(ids, ids.index_of(b));
    }
    assert forall|x: u32|
        #![trigger to(x)]
        d.contains(x) implies ir_flow::next_labels(r.blocks, to(x)) == ir_flow::next_labels(
        p.blocks,
        x,
    ).map_values(to) by {
        let i = ids.index_of(x);
        let t = (ir::block_at(p.blocks, ids[i])->0).terminator;
        placed(ids, i);
        numbered_found(r.blocks, i);
        relabelling_moves(t, ids);
        moved_successors(t, to);
    }
    assert forall|x: u32, k: int|
        d.contains(x) && 0 <= k < ir_flow::next_labels(p.blocks, x).len() implies d.contains(
        #[trigger] ir_flow::next_labels(p.blocks, x)[k],
    ) by {
        let i = ids.index_of(x);
        assert(ir_flow::next_labels(p.blocks, ids[i])[k] == ir_flow::next_labels(p.blocks, x)[k]);
        let none: Seq<u32> = Seq::empty();
        assert(!none.contains(ir_flow::next_labels(p.blocks, x)[k]));
    }
    let todo = seq![p.entry];
    let none: Seq<u32> = Seq::empty();
    assert(ids.contains(ids[0]));
    preorder_moves(p.blocks, r.blocks, d, to, todo, none);
    placed(ids, 0);
    assert(todo.map_values(to) =~= seq![0u32]);
    assert(none.map_values(to) =~= none);
    assert forall|i: int| 0 <= i < ids.len() implies (#[trigger] ids.map_values(to)[i])
        == i as u32 by {
        placed(ids, i);
    }
    assert(ids.map_values(to) =~= counted(ids.len()));
}

/// Without a default there are no arguments for it.
spec fn tidy(t: TerminatorV) -> bool {
    t matches TerminatorV::Match { default, default_args, .. } ==> default is Some
        || default_args.len() == 0
}

proof fn arms_keep_edges(arms: Seq<MatchArmV>, env: Map<Seq<char>, Seq<char>>)
    requires
        ir_normalize::renamed_arms(arms, env) is Some,
    ensures
        ({
            let now = ir_normalize::renamed_arms(arms, env)->0;
            &&& now.len() == arms.len()
            &&& forall|i: int|
                0 <= i < arms.len() ==> (#[trigger] now[i]).block == arms[i].block
                    && now[i].pattern == arms[i].pattern && now[i].args.len() == arms[i].args.len()
                    && ir_normalize::renamed_exprs(arms[i].args, env) == Some(now[i].args)
        }),
    decreases arms.len(),
{
    if arms.len() > 0 {
        arms_keep_edges(arms.drop_last(), env);
        exprs_keep_length(arms.last().args, env);
        let less = ir_normalize::renamed_arms(arms.drop_last(), env)->0;
        let now = ir_normalize::renamed_arms(arms, env)->0;
        assert forall|i: int| 0 <= i < arms.len() implies (#[trigger] now[i]).block
            == arms[i].block && now[i].pattern == arms[i].pattern && now[i].args.len()
            == arms[i].args.len() && ir_normalize::renamed_exprs(arms[i].args, env) == Some(
            now[i].args,
        ) by {
            if i < less.len() {
                assert(now[i] == less[i]);
                assert(arms[i] == arms.drop_last()[i]);
            }
        }
    }
}

proof fn exprs_keep_length(items: Seq<ExprV>, env: Map<Seq<char>, Seq<char>>)
    requires
        ir_normalize::renamed_exprs(items, env) is Some,
    ensures
        (ir_normalize::renamed_exprs(items, env)->0).len() == items.len(),
    decreases items.len(),
{
    if items.len() > 0 {
        exprs_keep_length(items.drop_last(), env);
    }
}

proof fn renaming_keeps_edges(t: TerminatorV, env: Map<Seq<char>, Seq<char>>)
    requires
        ir_normalize::renamed_terminator(t, env) is Some,
    ensures
        ({
            let now = ir_normalize::renamed_terminator(t, env)->0;
            &&& ir_vars::arities(now) == ir_vars::arities(t)
            &&& ir_vars::successors(now) == ir_vars::successors(t)
            &&& tidy(t) ==> tidy(now)
        }),
{
    let now = ir_normalize::renamed_terminator(t, env)->0;
    match t {
        TerminatorV::Goto { args, .. } => {
            exprs_keep_length(args, env);
        },
        TerminatorV::If { then_args, else_args, .. } => {
            exprs_keep_length(then_args, env);
            exprs_keep_length(else_args, env);
        },
        TerminatorV::Match { arms, default_args, .. } => {
            arms_keep_edges(arms, env);
            exprs_keep_length(default_args, env);
        },
        _ => {},
    }
    assert(ir_vars::arities(now) =~= ir_vars::arities(t));
    assert(ir_vars::successors(now) =~= ir_vars::successors(t));
}

proof fn decimals_differ(a: nat, b: nat)
    requires
        text::decimal(a) == text::decimal(b),
    ensures
        a == b,
    decreases a,
{
    decimals_are_texts(a);
    decimals_are_texts(b);
    if a >= 10 && b >= 10 {
        let x = text::decimal(a);
        assert(x.drop_last() =~= text::decimal(a / 10));
        assert(x.drop_last() =~= text::decimal(b / 10));
        assert(x.last() == text::digit(a % 10));
        assert(x.last() == text::digit(b % 10));
        decimals_differ(a / 10, b / 10);
    } else if a < 10 && b < 10 {
        assert(text::decimal(a)[0] == text::digit(a));
        assert(text::decimal(b)[0] == text::digit(b));
    }
}

proof fn decimals_are_texts(n: nat)
    ensures
        text::decimal(n).len() > 0,
        n >= 10 ==> text::decimal(n).len() > 1,
    decreases n,
{
    if n >= 10 {
        decimals_are_texts(n / 10);
    }
}

/// Canonical names of different numbers differ.
proof fn fresh_names_differ(a: nat, b: nat)
    requires
        ir_normalize::fresh(a) == ir_normalize::fresh(b),
    ensures
        a == b,
{
    reveal_strlit("v");
    assert(ir_normalize::fresh(a).skip(1) =~= text::decimal(a));
    assert(ir_normalize::fresh(b).skip(1) =~= text::decimal(b));
    decimals_differ(a, b);
}

/// What naming leaves as it is, and that it names no parameter twice.
proof fn named_shape(blocks: Blocks, i: int)
    requires
        ir_normalize::name_blocks(blocks) is Some,
        0 <= i < blocks.len(),
    ensures
        ({
            let now = (ir_normalize::name_blocks(blocks)->0).0;
            &&& now.len() == blocks.len()
            &&& now[i].0 == blocks[i].0
            &&& now[i].1.params.no_duplicates()
            &&& ir_vars::successors(now[i].1.terminator) == ir_vars::successors(
                blocks[i].1.terminator,
            )
            &&& tidy(blocks[i].1.terminator) ==> tidy(now[i].1.terminator)
        }),
    decreases blocks.len(),
{
    let less = blocks.drop_last();
    let before = ir_normalize::name_blocks(less)->0;
    let now = (ir_normalize::name_blocks(blocks)->0).0;
    named_length(less);
    if i < less.len() {
        named_shape(less, i);
        assert(now[i] == before.0[i]);
    } else {
        let b = blocks.last().1;
        let c = (ir_normalize::name_block(b, before.1)->0).0;
        let s = (ir_normalize::name_instrs(
            b.instructions,
            ir_normalize::name_params(b.params, before.1),
        )->0).1;
        renaming_keeps_edges(b.terminator, s.env);
        assert forall|x: int, y: int| 0 <= x < y < c.params.len() implies c.params[x]
            != c.params[y] by {
            if c.params[x] == c.params[y] {
                fresh_names_differ((before.1.next + x) as nat, (before.1.next + y) as nat);
            }
        }
    }
}

proof fn named_length(blocks: Blocks)
    requires
        ir_normalize::name_blocks(blocks) is Some,
    ensures
        (ir_normalize::name_blocks(blocks)->0).0.len() == blocks.len(),
    decreases blocks.len(),
{
    if blocks.len() > 0 {
        named_length(blocks.drop_last());
    }
}

proof fn nothing_picked(order: Seq<Seq<char>>, params: Seq<Seq<char>>)
    ensures
        ir_normalize::pick(order, Set::empty(), params) == Seq::<Seq<char>>::empty(),
    decreases order.len(),
{
    if order.len() > 0 {
        nothing_picked(order.drop_last(), params);
    }
}

/// A program in strict SSA form that is numbered in the order in which it is
/// reached.
spec fn in_form(n: ProgramV) -> bool {
    &&& n.id == Seq::<char>::empty()
    &&& n.entry == 0
    &&& n.blocks.len() <= 0x1_0000_0000
    &&& ir_flow::strict_ssa(n)
    &&& ir_flow::reached(n) == counted(n.blocks.len())
    &&& forall|i: int|
        0 <= i < n.blocks.len() ==> (#[trigger] n.blocks[i]).0 == i as u32
            && n.blocks[i].1.params.no_duplicates() && tidy(n.blocks[i].1.terminator)
}

proof fn params_stay(n: ProgramV, order: Seq<Seq<char>>, i: int)
    requires
        in_form(n),
        0 <= i < n.blocks.len(),
    ensures
        ir_normalize::ssa_params(
            n.blocks[i].1,
            ir_flow::required(n.blocks, i as u32),
            order,
        ) == n.blocks[i].1.params,
{
    let b = n.blocks[i].1;
    let wanted = ir_flow::required(n.blocks, i as u32);
    assert forall|v: Seq<char>| !wanted.contains(v) by {
        if wanted.contains(v) {
            let k = choose|k: nat| #[trigger] ir_flow::needs(n.blocks, i as u32, v, k);
            normal_laws::local_needs_nothing(n.blocks, i as u32, v, k);
        }
    }
    assert(wanted =~= Set::empty());
    nothing_picked(order, b.params);
    normal_laws::add_distinct(b.params);
    assert(b.params + Seq::<Seq<char>>::empty() =~= b.params);
}

proof fn target_in_form(n: ProgramV, i: int, k: int)
    requires
        in_form(n),
        0 <= i < n.blocks.len(),
        0 <= k < ir_vars::successors(n.blocks[i].1.terminator).len(),
    ensures
        ir_vars::successors(n.blocks[i].1.terminator)[k] < n.blocks.len(),
{
    let t = n.blocks[i].1.terminator;
    assert(ir_flow::edges_ok(n.blocks, n.blocks[i].1));
    assert(ir_flow::edge_ok(n.blocks, ir_vars::arities(t)[k]));
    let x = ir_vars::successors(t)[k];
    ir::block_at_found(n.blocks, x);
    let b = ir::block_at(n.blocks, x)->0;
    let m = choose|m: int| 0 <= m < n.blocks.len() && (#[trigger] n.blocks[m]) == (x, b);
    assert(n.blocks[m].0 == m as u32);
}

proof fn args_stay(n: ProgramV, order: Seq<Seq<char>>, x: u32, args: Seq<ExprV>)
    requires
        in_form(n),
        x < n.blocks.len(),
    ensures
        ir_normalize::ssa_args(n.blocks, order, x, args) == args,
{
    numbered_found(n.blocks, x as int);
    params_stay(n, order, x as int);
    let b = n.blocks[x as int].1;
    let more = ir_normalize::as_exprs(ir_normalize::beyond(b.params, b.params.len()));
    assert(more =~= Seq::empty());
    assert(args + more =~= args);
}

proof fn ssa_stays(n: ProgramV)
    requires
        in_form(n),
    ensures
        ir_normalize::ssa_program(n) == n,
{
    let ids = ir_flow::reached(n);
    let order = ir_normalize::def_order(n.blocks, ids);
    let now = ir_normalize::ssa_program(n).blocks;
    assert forall|i: int| 0 <= i < n.blocks.len() implies (#[trigger] now[i]) == n.blocks[i] by {
        let t = n.blocks[i].1.terminator;
        let u = ir_normalize::ssa_terminator(n.blocks, order, t);
        let next = ir_vars::successors(t);
        assert(ids[i] == i as u32);
        numbered_found(n.blocks, i);
        params_stay(n, order, i);
        assert forall|k: int| 0 <= k < next.len() implies (#[trigger] next[k])
            < n.blocks.len() by {
            target_in_form(n, i, k);
        }
        match t {
            TerminatorV::Goto { block, args } => {
                assert(next[0] == block);
                args_stay(n, order, block, args);
            },
            TerminatorV::If { cond, then_block, then_args, else_block, else_args } => {
                assert(next[0] == then_block);
                assert(next[1] == else_block);
                args_stay(n, order, then_block, then_args);
                args_stay(n, order, else_block, else_args);
            },
            TerminatorV::Match { value, arms, default, default_args } => {
                assert forall|k: int| 0 <= k < arms.len() implies (#[trigger] u->arms[k])
                    == arms[k] by {
                    assert(next[k] == arms[k].block);
                    args_stay(n, order, arms[k].block, arms[k].args);
                }
                assert(u->arms =~= arms);
                if let Some(d) = default {
                    assert(next[arms.len() as int] == d);
                    args_stay(n, order, d, default_args);
                } else {
                    assert(default_args =~= Seq::empty());
                }
            },
            _ => {},
        }
        assert(u == t);
    }
    assert(now =~= n.blocks);
}

proof fn position_stays(k: nat, x: u32)
    requires
        x < k <= 0x1_0000_0000,
    ensures
        ir_normalize::relabel(counted(k), x) == x,
{
    ir_normalize::position_is_first(counted(k), x, x as int);
}

proof fn numbers_stay(n: ProgramV)
    requires
        in_form(n),
    ensures
        ir_normalize::renumbered(n) == n,
{
    let ids = counted(n.blocks.len());
    let now = ir_normalize::renumbered(n).blocks;
    assert forall|i: int| 0 <= i < n.blocks.len() implies (#[trigger] now[i]) == n.blocks[i] by {
        let t = n.blocks[i].1.terminator;
        let u = ir_normalize::relabelled(t, ids);
        let next = ir_vars::successors(t);
        assert(ids[i] == i as u32);
        numbered_found(n.blocks, i);
        assert forall|k: int| 0 <= k < next.len() implies ir_normalize::relabel(
            ids,
            #[trigger] next[k],
        ) == next[k] by {
            target_in_form(n, i, k);
            position_stays(n.blocks.len(), next[k]);
        }
        match t {
            TerminatorV::Goto { block, args } => {
                assert(next[0] == block);
            },
            TerminatorV::If { cond, then_block, then_args, else_block, else_args } => {
                assert(next[0] == then_block);
                assert(next[1] == else_block);
            },
            TerminatorV::Match { value, arms, default, default_args } => {
                assert forall|k: int| 0 <= k < arms.len() implies (#[trigger] u->arms[k])
                    == arms[k] by {
                    assert(next[k] == arms[k].block);
                }
                assert(u->arms =~= arms);
                if let Some(d) = default {
                    assert(next[arms.len() as int] == d);
                }
            },
            TerminatorV::Return { value } => {},
            TerminatorV::Par { branches, join } => {
                assert forall|k: int| 0 <= k < branches.len() implies (#[trigger] u->branches[k])
                    == branches[k] by {
                    assert(next[k] == branches[k]);
                }
                assert(u->branches =~= branches);
                assert(next[branches.len() as int] == join);
            },
        }
        assert(u == t);
    }
    assert(now =~= n.blocks);
}

proof fn ssa_is_tidy(blocks: Blocks, order: Seq<Seq<char>>, t: TerminatorV, ids: Seq<u32>)
    ensures
        tidy(ir_normalize::relabelled(ir_normalize::ssa_terminator(blocks, order, t), ids)),
{
}

proof fn normal_form_in_form(p: ProgramV)
    requires
        ir_flow::valid(p),
        ir_normalize::normal_form(p) is Some,
        ir_flow::strict_ssa(ir_normalize::normal_form(p)->0),
    ensures
        in_form(ir_normalize::normal_form(p)->0),
{
    let n = ir_normalize::normal_form(p)->0;
    let a = ir_normalize::ssa_program(p);
    let r = ir_normalize::renumbered(a);
    ir_normalize::ssa_reaches_the_same(p);
    numbered_in_order(a);
    named_length(r.blocks);
    let ids = ir_flow::reached(r);
    let order = ir_normalize::def_order(p.blocks, ir_flow::reached(p));
    assert forall|i: int| 0 <= i < n.blocks.len() implies (#[trigger] n.blocks[i]).0 == i as u32
        && n.blocks[i].1.params.no_duplicates() && tidy(n.blocks[i].1.terminator) by {
        named_shape(r.blocks, i);
        ssa_found(p, i);
        ssa_is_tidy(
            p.blocks,
            order,
            (ir::block_at(p.blocks, ir_flow::reached(p)[i])->0).terminator,
            ir_flow::reached(a),
        );
    }
    assert forall|i: int| 0 <= i < ids.len() implies ir_flow::next_labels(
        r.blocks,
        #[trigger] ids[i],
    ) == ir_flow::next_labels(n.blocks, ids[i]) by {
        assert(ids[i] == i as u32);
        numbered_found(r.blocks, i);
        numbered_found(n.blocks, i);
        named_shape(r.blocks, i);
    }
    ir_normalize::same_preorder(r.blocks, n.blocks, ids, seq![0u32], Seq::empty());
}

/// Taking the canonical form of a canonical form changes nothing.
pub proof fn normalizing_again_changes_nothing(p: ProgramV)
    requires
        ir_flow::valid(p),
        ir_normalize::normal_form(p) is Some,
        ir_flow::strict_ssa(ir_normalize::normal_form(p)->0),
    ensures
        ir_normalize::normal_form(ir_normalize::normal_form(p)->0) == ir_normalize::normal_form(p),
{
    let n = ir_normalize::normal_form(p)->0;
    normal_form_in_form(p);
    ssa_stays(n);
    numbers_stay(n);
    blocks_named_again(ir_normalize::renumbered(ir_normalize::ssa_program(p)).blocks);
}

/// Every valid program without parallel branches and repeated parameters has a
/// canonical form that is its own canonical form.
pub proof fn canonical_forms_are_canonical(p: ProgramV)
    requires
        ir_flow::valid(p),
        normal_laws::sequential(p),
    ensures
        ir_normalize::normal_form(p) is Some,
        ir_normalize::normal_form(ir_normalize::normal_form(p)->0) == ir_normalize::normal_form(p),
{
    normal_laws::normal_form_is_strict(p);
    normalizing_again_changes_nothing(p);
}

/// Whether two maps undo each other.
pub open spec fn inverse(env: Map<Seq<char>, Seq<char>>, back: Map<Seq<char>, Seq<char>>) -> bool {
    &&& forall|v: Seq<char>|
        #![trigger env.contains_key(v)]
        env.contains_key(v) ==> back.contains_key(env[v]) && back[env[v]] == v
    &&& forall|w: Seq<char>|
        #![trigger back.contains_key(w)]
        back.contains_key(w) ==> env.contains_key(back[w]) && env[back[w]] == w
}

/// An instruction with all its variables renamed.
pub open spec fn renamed_instr(i: InstrV, env: Map<Seq<char>, Seq<char>>) -> Option<InstrV> {
    match ir_normalize::renamed_uses(i, env) {
        Some(u) => match ir_vars::defines(i) {
            Some(v) => match ir_normalize::renamed_var(v, env) {
                Some(w) => Some(ir_normalize::with_out(u, w)),
                None => None,
            },
            None => Some(u),
        },
        None => None,
    }
}

/// Whether a block is another one with its variables renamed.
pub open spec fn renamed_block(b: BlockV, c: BlockV, env: Map<Seq<char>, Seq<char>>) -> bool {
    &&& c.params.len() == b.params.len()
    &&& forall|i: int|
        0 <= i < b.params.len() ==> ir_normalize::renamed_var(#[trigger] b.params[i], env) == Some(
            c.params[i],
        )
    &&& c.instructions.len() == b.instructions.len()
    &&& forall|i: int|
        0 <= i < b.instructions.len() ==> renamed_instr(#[trigger] b.instructions[i], env) == Some(
            c.instructions[i],
        )
    &&& ir_normalize::renamed_terminator(b.terminator, env) == Some(c.terminator)
}

/// Whether labelled blocks are others with their variables renamed.
pub open spec fn renamed_blocks(a: Blocks, b: Blocks, env: Map<Seq<char>, Seq<char>>) -> bool {
    &&& a.len() == b.len()
    &&& forall|i: int|
        0 <= i < a.len() ==> (#[trigger] b[i]).0 == a[i].0 && renamed_block(a[i].1, b[i].1, env)
}

/// Whether a set of names is another one renamed.
spec fn mirrors(
    s: Set<Seq<char>>,
    t: Set<Seq<char>>,
    env: Map<Seq<char>, Seq<char>>,
    back: Map<Seq<char>, Seq<char>>,
) -> bool {
    &&& forall|w: Seq<char>|
        #![trigger t.contains(w)]
        t.contains(w) == (back.contains_key(w) && s.contains(back[w]))
    &&& forall|v: Seq<char>| #[trigger] s.contains(v) ==> env.contains_key(v)
}

proof fn mirrors_union(
    a: Set<Seq<char>>,
    b: Set<Seq<char>>,
    c: Set<Seq<char>>,
    d: Set<Seq<char>>,
    env: Map<Seq<char>, Seq<char>>,
    back: Map<Seq<char>, Seq<char>>,
)
    requires
        mirrors(a, c, env, back),
        mirrors(b, d, env, back),
    ensures
        mirrors(a.union(b), c.union(d), env, back),
        mirrors(a.difference(b), c.difference(d), env, back),
{
}

proof fn mirrors_one(v: Seq<char>, env: Map<Seq<char>, Seq<char>>, back: Map<Seq<char>, Seq<char>>)
    requires
        inverse(env, back),
        env.contains_key(v),
    ensures
        mirrors(set![v], set![env[v]], env, back),
{
}

proof fn expr_mirrors(e: ExprV, env: Map<Seq<char>, Seq<char>>, back: Map<Seq<char>, Seq<char>>)
    requires
        inverse(env, back),
        ir_normalize::renamed_expr(e, env) is Some,
    ensures
        mirrors(
            ir_vars::expr_vars(e),
            ir_vars::expr_vars(ir_normalize::renamed_expr(e, env)->0),
            env,
            back,
        ),
    decreases e,
{
    match e {
        ExprV::Var(x) => {
            mirrors_one(x, env, back);
        },
        ExprV::Field { base, .. } => {
            mirrors_one(base, env, back);
        },
        ExprV::Len { base } => {
            mirrors_one(base, env, back);
        },
        ExprV::IsEmpty { base } => {
            mirrors_one(base, env, back);
        },
        ExprV::HasPendingToolCalls { base } => {
            mirrors_one(base, env, back);
        },
        ExprV::FieldOr { base, default, .. } => {
            mirrors_one(base, env, back);
            expr_mirrors(*default, env, back);
        },
        ExprV::StringOr { value, default } => {
            expr_mirrors(*value, env, back);
            expr_mirrors(*default, env, back);
        },
        ExprV::If { cond, then_value, else_value } => {
            expr_mirrors(*cond, env, back);
            expr_mirrors(*then_value, env, back);
            expr_mirrors(*else_value, env, back);
        },
        ExprV::Index { base, index } => {
            mirrors_one(base, env, back);
            expr_mirrors(*index, env, back);
        },
        ExprV::Eq { left, right } => {
            expr_mirrors(*left, env, back);
            expr_mirrors(*right, env, back);
        },
        ExprV::Lt { left, right } => {
            expr_mirrors(*left, env, back);
            expr_mirrors(*right, env, back);
        },
        ExprV::Or { left, right } => {
            expr_mirrors(*left, env, back);
            expr_mirrors(*right, env, back);
        },
        ExprV::And { left, right } => {
            expr_mirrors(*left, env, back);
            expr_mirrors(*right, env, back);
        },
        ExprV::Add { left, right } => {
            expr_mirrors(*left, env, back);
            expr_mirrors(*right, env, back);
        },
        ExprV::Sub { left, right } => {
            expr_mirrors(*left, env, back);
            expr_mirrors(*right, env, back);
        },
        ExprV::Push { base, value } => {
            mirrors_one(base, env, back);
            expr_mirrors(*value, env, back);
        },
        ExprV::JsonParse { value } => {
            expr_mirrors(*value, env, back);
        },
        ExprV::JsonParseOr { value, default } => {
            expr_mirrors(*value, env, back);
            expr_mirrors(*default, env, back);
        },
        ExprV::ToString { value } => {
            expr_mirrors(*value, env, back);
        },
        ExprV::Concat { left, right } => {
            expr_mirrors(*left, env, back);
            expr_mirrors(*right, env, back);
        },
        ExprV::SelectToolResults { history, ids } => {
            mirrors_one(history, env, back);
            expr_mirrors(*ids, env, back);
        },
        ExprV::Array(x) => {
            exprs_mirror(x, env, back);
        },
        ExprV::Object(x) => {
            named_mirror(x, env, back);
        },
        ExprV::Value(_) => {},
    }
}

proof fn exprs_mirror(
    items: Seq<ExprV>,
    env: Map<Seq<char>, Seq<char>>,
    back: Map<Seq<char>, Seq<char>>,
)
    requires
        inverse(env, back),
        ir_normalize::renamed_exprs(items, env) is Some,
    ensures
        mirrors(
            ir_vars::exprs_vars(items),
            ir_vars::exprs_vars(ir_normalize::renamed_exprs(items, env)->0),
            env,
            back,
        ),
    decreases items,
{
    if items.len() > 0 {
        exprs_mirror(items.drop_last(), env, back);
        expr_mirrors(items[items.len() - 1], env, back);
        let now = ir_normalize::renamed_exprs(items, env)->0;
        assert(now.drop_last() =~= ir_normalize::renamed_exprs(items.drop_last(), env)->0);
    }
}

proof fn named_mirror(
    items: Seq<(Seq<char>, ExprV)>,
    env: Map<Seq<char>, Seq<char>>,
    back: Map<Seq<char>, Seq<char>>,
)
    requires
        inverse(env, back),
        ir_normalize::renamed_named(items, env) is Some,
    ensures
        mirrors(
            ir_vars::named_vars(items),
            ir_vars::named_vars(ir_normalize::renamed_named(items, env)->0),
            env,
            back,
        ),
    decreases items,
{
    if items.len() > 0 {
        named_mirror(items.drop_last(), env, back);
        expr_mirrors(items[items.len() - 1].1, env, back);
        let now = ir_normalize::renamed_named(items, env)->0;
        assert(now.drop_last() =~= ir_normalize::renamed_named(items.drop_last(), env)->0);
    }
}

proof fn uses_mirror(i: InstrV, env: Map<Seq<char>, Seq<char>>, back: Map<Seq<char>, Seq<char>>)
    requires
        inverse(env, back),
        renamed_instr(i, env) is Some,
    ensures
        ({
            let j = renamed_instr(i, env)->0;
            &&& mirrors(ir_vars::uses(i), ir_vars::uses(j), env, back)
            &&& match ir_vars::defines(i) {
                Some(v) => env.contains_key(v) && ir_vars::defines(j) == Some(env[v]),
                None => ir_vars::defines(j) is None,
            }
        }),
{
    match i {
        InstrV::Let { expr, .. } => {
            expr_mirrors(expr, env, back);
        },
        InstrV::Infer { model, prompt, .. } => {
            expr_mirrors(model, env, back);
            match prompt {
                PromptRefV::Var(v) => {
                    mirrors_one(v, env, back);
                },
                PromptRefV::PromptIrVar(v) => {
                    mirrors_one(v, env, back);
                },
                _ => {},
            }
        },
        InstrV::Eval { request, .. } => {
            match request {
                EvalRequestV::Shell { command } => {
                    expr_mirrors(command, env, back);
                },
                EvalRequestV::Argv { argv } => {
                    exprs_mirror(argv, env, back);
                },
            }
        },
        InstrV::Emit { event } => {
            expr_mirrors(event, env, back);
        },
        InstrV::Retrieve { query, .. } => {
            expr_mirrors(query, env, back);
        },
        InstrV::Store { sink, id, item, .. } => {
            expr_mirrors(sink, env, back);
            if let Some(e) = id {
                expr_mirrors(e, env, back);
            }
            expr_mirrors(item, env, back);
        },
        InstrV::Tool { arguments, .. } => {
            expr_mirrors(arguments, env, back);
        },
    }
}

proof fn arms_mirror(
    arms: Seq<MatchArmV>,
    env: Map<Seq<char>, Seq<char>>,
    back: Map<Seq<char>, Seq<char>>,
)
    requires
        inverse(env, back),
        ir_normalize::renamed_arms(arms, env) is Some,
    ensures
        mirrors(
            ir_vars::arms_vars(arms),
            ir_vars::arms_vars(ir_normalize::renamed_arms(arms, env)->0),
            env,
            back,
        ),
    decreases arms.len(),
{
    if arms.len() > 0 {
        arms_mirror(arms.drop_last(), env, back);
        exprs_mirror(arms.last().args, env, back);
        let now = ir_normalize::renamed_arms(arms, env)->0;
        assert(now.drop_last() =~= ir_normalize::renamed_arms(arms.drop_last(), env)->0);
    }
}

proof fn terminator_mirrors(
    t: TerminatorV,
    env: Map<Seq<char>, Seq<char>>,
    back: Map<Seq<char>, Seq<char>>,
)
    requires
        inverse(env, back),
        ir_normalize::renamed_terminator(t, env) is Some,
    ensures
        ({
            let u = ir_normalize::renamed_terminator(t, env)->0;
            &&& mirrors(ir_vars::control_uses(t), ir_vars::control_uses(u), env, back)
            &&& mirrors(ir_vars::value_uses(t), ir_vars::value_uses(u), env, back)
        }),
{
    match t {
        TerminatorV::Goto { args, .. } => {
            exprs_mirror(args, env, back);
        },
        TerminatorV::If { cond, then_args, else_args, .. } => {
            expr_mirrors(cond, env, back);
            exprs_mirror(then_args, env, back);
            exprs_mirror(else_args, env, back);
        },
        TerminatorV::Match { value, arms, default_args, .. } => {
            expr_mirrors(value, env, back);
            arms_mirror(arms, env, back);
            exprs_mirror(default_args, env, back);
        },
        TerminatorV::Return { value } => {
            expr_mirrors(value, env, back);
        },
        TerminatorV::Par { .. } => {},
    }
}

proof fn defined_mirrors(
    b: BlockV,
    c: BlockV,
    env: Map<Seq<char>, Seq<char>>,
    back: Map<Seq<char>, Seq<char>>,
    n: int,
)
    requires
        inverse(env, back),
        renamed_block(b, c, env),
        0 <= n <= b.instructions.len(),
    ensures
        mirrors(ir_vars::defined_by(b, n), ir_vars::defined_by(c, n), env, back),
        mirrors(ir_vars::free_before(b, n), ir_vars::free_before(c, n), env, back),
    decreases n,
{
    if n == 0 {
        let s = b.params.to_set();
        let t = c.params.to_set();
        assert forall|v: Seq<char>| #[trigger] s.contains(v) implies env.contains_key(v) by {
            let k = b.params.index_of(v);
            assert(ir_normalize::renamed_var(b.params[k], env) is Some);
        }
        assert forall|w: Seq<char>|
            #![trigger t.contains(w)]
            t.contains(w) == (back.contains_key(w) && s.contains(back[w])) by {
            if t.contains(w) {
                let k = c.params.index_of(w);
                assert(ir_normalize::renamed_var(b.params[k], env) == Some(w));
                assert(env.contains_key(b.params[k]));
                assert(b.params.contains(b.params[k]));
            }
            if back.contains_key(w) && s.contains(back[w]) {
                let k = b.params.index_of(back[w]);
                assert(ir_normalize::renamed_var(b.params[k], env) == Some(c.params[k]));
                assert(c.params[k] == w);
            }
        }
    } else {
        defined_mirrors(b, c, env, back, n - 1);
        uses_mirror(b.instructions[n - 1], env, back);
        mirrors_union(
            ir_vars::uses(b.instructions[n - 1]),
            ir_vars::defined_by(b, n - 1),
            ir_vars::uses(c.instructions[n - 1]),
            ir_vars::defined_by(c, n - 1),
            env,
            back,
        );
    }
}

proof fn block_mirrors(
    b: BlockV,
    c: BlockV,
    env: Map<Seq<char>, Seq<char>>,
    back: Map<Seq<char>, Seq<char>>,
)
    requires
        inverse(env, back),
        renamed_block(b, c, env),
    ensures
        mirrors(ir_vars::all_defined(b), ir_vars::all_defined(c), env, back),
        mirrors(ir_vars::free_vars(b), ir_vars::free_vars(c), env, back),
{
    defined_mirrors(b, c, env, back, b.instructions.len() as int);
    terminator_mirrors(b.terminator, env, back);
    mirrors_union(
        ir_vars::control_uses(b.terminator),
        ir_vars::value_uses(b.terminator),
        ir_vars::control_uses(c.terminator),
        ir_vars::value_uses(c.terminator),
        env,
        back,
    );
}

proof fn renamed_found(a: Blocks, b: Blocks, env: Map<Seq<char>, Seq<char>>, id: u32)
    requires
        renamed_blocks(a, b, env),
    ensures
        carried(a, id) == carried(b, id),
        carried(a, id) ==> renamed_block(ir::block_at(a, id)->0, ir::block_at(b, id)->0, env),
        ir_flow::next_labels(a, id) == ir_flow::next_labels(b, id),
    decreases a.len(),
{
    if a.len() > 0 {
        assert(b[0].0 == a[0].0 && renamed_block(a[0].1, b[0].1, env));
        let ra = a.drop_first();
        let rb = b.drop_first();
        assert forall|i: int| 0 <= i < ra.len() implies (#[trigger] rb[i]).0 == ra[i].0
            && renamed_block(ra[i].1, rb[i].1, env) by {
            assert(rb[i] == b[i + 1]);
        }
        renamed_found(ra, rb, env, id);
        if a[0].0 == id {
            renaming_keeps_edges(a[0].1.terminator, env);
        }
    }
}

proof fn needs_mirror(
    a: Blocks,
    b: Blocks,
    env: Map<Seq<char>, Seq<char>>,
    back: Map<Seq<char>, Seq<char>>,
    id: u32,
    w: Seq<char>,
    n: nat,
)
    requires
        inverse(env, back),
        renamed_blocks(a, b, env),
    ensures
        ir_flow::needs(b, id, w, n) == (back.contains_key(w) && ir_flow::needs(
            a,
            id,
            back[w],
            n,
        )),
    decreases n,
{
    renamed_found(a, b, env, id);
    if carried(a, id) {
        let x = ir::block_at(a, id)->0;
        let y = ir::block_at(b, id)->0;
        let next = ir_flow::next_labels(a, id);
        block_mirrors(x, y, env, back);
        assert(ir_vars::free_vars(y).contains(w) == (back.contains_key(w) && ir_vars::free_vars(
            x,
        ).contains(back[w])));
        assert(ir_vars::all_defined(y).contains(w) == (back.contains_key(w)
            && ir_vars::all_defined(x).contains(back[w])));
        if n > 0 {
            assert forall|k: int| 0 <= k < next.len() implies ir_flow::needs(
                b,
                #[trigger] next[k],
                w,
                (n - 1) as nat,
            ) == (back.contains_key(w) && ir_flow::needs(
                a,
                next[k],
                back[w],
                (n - 1) as nat,
            )) by {
                needs_mirror(a, b, env, back, next[k], w, (n - 1) as nat);
            }
            if ir_flow::needs(b, id, w, n) && !ir_vars::free_vars(y).contains(w) {
                let k = choose|k: int|
                    0 <= k < next.len() && ir_flow::needs(
                        b,
                        #[trigger] next[k],
                        w,
                        (n - 1) as nat,
                    );
                assert(ir_flow::needs(a, next[k], back[w], (n - 1) as nat));
            }
            if back.contains_key(w) && ir_flow::needs(a, id, back[w], n) && !ir_vars::free_vars(
                x,
            ).contains(back[w]) {
                let k = choose|k: int|
                    0 <= k < next.len() && ir_flow::needs(
                        a,
                        #[trigger] next[k],
                        back[w],
                        (n - 1) as nat,
                    );
                assert(ir_flow::needs(b, next[k], w, (n - 1) as nat));
            }
        }
    }
}

proof fn needed_is_named(
    a: Blocks,
    b: Blocks,
    env: Map<Seq<char>, Seq<char>>,
    back: Map<Seq<char>, Seq<char>>,
    id: u32,
    v: Seq<char>,
    n: nat,
)
    requires
        inverse(env, back),
        renamed_blocks(a, b, env),
        ir_flow::needs(a, id, v, n),
    ensures
        env.contains_key(v),
    decreases n,
{
    renamed_found(a, b, env, id);
    let x = ir::block_at(a, id)->0;
    block_mirrors(x, ir::block_at(b, id)->0, env, back);
    if !ir_vars::free_vars(x).contains(v) {
        let next = ir_flow::next_labels(a, id);
        let k = choose|k: int|
            0 <= k < next.len() && ir_flow::needs(a, #[trigger] next[k], v, (n - 1) as nat);
        needed_is_named(a, b, env, back, next[k], v, (n - 1) as nat);
    }
}

proof fn required_mirrors(
    a: Blocks,
    b: Blocks,
    env: Map<Seq<char>, Seq<char>>,
    back: Map<Seq<char>, Seq<char>>,
    id: u32,
)
    requires
        inverse(env, back),
        renamed_blocks(a, b, env),
    ensures
        mirrors(ir_flow::required(a, id), ir_flow::required(b, id), env, back),
{
    let s = ir_flow::required(a, id);
    let t = ir_flow::required(b, id);
    assert forall|v: Seq<char>| #[trigger] s.contains(v) implies env.contains_key(v) by {
        let n = choose|n: nat| #[trigger] ir_flow::needs(a, id, v, n);
        needed_is_named(a, b, env, back, id, v, n);
    }
    assert forall|w: Seq<char>|
        #![trigger t.contains(w)]
        t.contains(w) == (back.contains_key(w) && s.contains(back[w])) by {
        if t.contains(w) {
            let n = choose|n: nat| #[trigger] ir_flow::needs(b, id, w, n);
            needs_mirror(a, b, env, back, id, w, n);
        }
        if back.contains_key(w) && s.contains(back[w]) {
            let n = choose|n: nat| #[trigger] ir_flow::needs(a, id, back[w], n);
            needs_mirror(a, b, env, back, id, w, n);
        }
    }
}

/// Names renamed one by one.
spec fn renamed_list(list: Seq<Seq<char>>, env: Map<Seq<char>, Seq<char>>) -> Seq<Seq<char>> {
    Seq::new(list.len(), |i: int| env[list[i]])
}

/// Whether all names of a list are renamed.
spec fn all_named(list: Seq<Seq<char>>, env: Map<Seq<char>, Seq<char>>) -> bool {
    forall|i: int| 0 <= i < list.len() ==> env.contains_key(#[trigger] list[i])
}

proof fn list_holds(
    list: Seq<Seq<char>>,
    env: Map<Seq<char>, Seq<char>>,
    back: Map<Seq<char>, Seq<char>>,
    v: Seq<char>,
)
    requires
        inverse(env, back),
        all_named(list, env),
        env.contains_key(v),
    ensures
        renamed_list(list, env).contains(env[v]) == list.contains(v),
{
    let now = renamed_list(list, env);
    if list.contains(v) {
        let k = list.index_of(v);
        assert(now[k] == env[v]);
    }
    if now.contains(env[v]) {
        let k = now.index_of(env[v]);
        assert(env[list[k]] == env[v]);
        assert(env.contains_key(list[k]));
        assert(list[k] == v);
    }
}

proof fn add_name_renamed(
    list: Seq<Seq<char>>,
    env: Map<Seq<char>, Seq<char>>,
    back: Map<Seq<char>, Seq<char>>,
    v: Seq<char>,
)
    requires
        inverse(env, back),
        all_named(list, env),
        env.contains_key(v),
    ensures
        ir_normalize::add_name(renamed_list(list, env), env[v]) == renamed_list(
            ir_normalize::add_name(list, v),
            env,
        ),
        all_named(ir_normalize::add_name(list, v), env),
{
    list_holds(list, env, back, v);
    assert(renamed_list(list.push(v), env) =~= renamed_list(list, env).push(env[v]));
}

proof fn add_names_renamed(
    list: Seq<Seq<char>>,
    more: Seq<Seq<char>>,
    env: Map<Seq<char>, Seq<char>>,
    back: Map<Seq<char>, Seq<char>>,
)
    requires
        inverse(env, back),
        all_named(list, env),
        all_named(more, env),
    ensures
        ir_normalize::add_names(renamed_list(list, env), renamed_list(more, env)) == renamed_list(
            ir_normalize::add_names(list, more),
            env,
        ),
        all_named(ir_normalize::add_names(list, more), env),
    decreases more.len(),
{
    if more.len() > 0 {
        let less = more.drop_last();
        assert forall|i: int| 0 <= i < less.len() implies env.contains_key(#[trigger] less[i]) by {
            assert(less[i] == more[i]);
        }
        add_names_renamed(list, less, env, back);
        assert(env.contains_key(more[more.len() - 1]));
        assert(renamed_list(more, env).drop_last() =~= renamed_list(less, env));
        add_name_renamed(ir_normalize::add_names(list, less), env, back, more.last());
    }
}

proof fn add_outs_renamed(
    list: Seq<Seq<char>>,
    a: Seq<InstrV>,
    b: Seq<InstrV>,
    env: Map<Seq<char>, Seq<char>>,
    back: Map<Seq<char>, Seq<char>>,
)
    requires
        inverse(env, back),
        all_named(list, env),
        a.len() == b.len(),
        forall|i: int| 0 <= i < a.len() ==> renamed_instr(#[trigger] a[i], env) == Some(b[i]),
    ensures
        ir_normalize::add_outs(renamed_list(list, env), b) == renamed_list(
            ir_normalize::add_outs(list, a),
            env,
        ),
        all_named(ir_normalize::add_outs(list, a), env),
    decreases a.len(),
{
    if a.len() > 0 {
        let ra = a.drop_last();
        let rb = b.drop_last();
        assert forall|i: int| 0 <= i < ra.len() implies renamed_instr(#[trigger] ra[i], env)
            == Some(rb[i]) by {
            assert(ra[i] == a[i]);
        }
        add_outs_renamed(list, ra, rb, env, back);
        let i = a[a.len() - 1];
        assert(renamed_instr(i, env) == Some(b[b.len() - 1]));
        uses_mirror(i, env, back);
        if let Some(v) = ir_vars::defines(i) {
            add_name_renamed(ir_normalize::add_outs(list, ra), env, back, v);
        }
    }
}

proof fn params_renamed(b: BlockV, c: BlockV, env: Map<Seq<char>, Seq<char>>)
    requires
        renamed_block(b, c, env),
    ensures
        c.params == renamed_list(b.params, env),
        all_named(b.params, env),
{
    assert forall|i: int| 0 <= i < b.params.len() implies env.contains_key(
        #[trigger] b.params[i],
    ) && c.params[i] == env[b.params[i]] by {
        assert(ir_normalize::renamed_var(b.params[i], env) == Some(c.params[i]));
    }
    assert(c.params =~= renamed_list(b.params, env));
}

proof fn order_renamed(
    a: Blocks,
    b: Blocks,
    ids: Seq<u32>,
    env: Map<Seq<char>, Seq<char>>,
    back: Map<Seq<char>, Seq<char>>,
)
    requires
        inverse(env, back),
        renamed_blocks(a, b, env),
    ensures
        ir_normalize::def_order(b, ids) == renamed_list(ir_normalize::def_order(a, ids), env),
        all_named(ir_normalize::def_order(a, ids), env),
    decreases ids.len(),
{
    if ids.len() > 0 {
        order_renamed(a, b, ids.drop_last(), env, back);
        renamed_found(a, b, env, ids.last());
        if carried(a, ids.last()) {
            let x = ir::block_at(a, ids.last())->0;
            let y = ir::block_at(b, ids.last())->0;
            let before = ir_normalize::def_order(a, ids.drop_last());
            params_renamed(x, y, env);
            add_names_renamed(before, x.params, env, back);
            add_outs_renamed(
                ir_normalize::add_names(before, x.params),
                x.instructions,
                y.instructions,
                env,
                back,
            );
        }
    } else {
        assert(renamed_list(ir_normalize::def_order(a, ids), env) =~= Seq::empty());
    }
}

proof fn pick_renamed(
    order: Seq<Seq<char>>,
    wanted: Set<Seq<char>>,
    wanted2: Set<Seq<char>>,
    params: Seq<Seq<char>>,
    env: Map<Seq<char>, Seq<char>>,
    back: Map<Seq<char>, Seq<char>>,
)
    requires
        inverse(env, back),
        all_named(order, env),
        all_named(params, env),
        mirrors(wanted, wanted2, env, back),
    ensures
        ir_normalize::pick(renamed_list(order, env), wanted2, renamed_list(params, env))
            == renamed_list(ir_normalize::pick(order, wanted, params), env),
        all_named(ir_normalize::pick(order, wanted, params), env),
    decreases order.len(),
{
    if order.len() > 0 {
        let less = order.drop_last();
        let v = order[order.len() - 1];
        assert forall|i: int| 0 <= i < less.len() implies env.contains_key(#[trigger] less[i]) by {
            assert(less[i] == order[i]);
        }
        pick_renamed(less, wanted, wanted2, params, env, back);
        assert(renamed_list(order, env).drop_last() =~= renamed_list(less, env));
        assert(env.contains_key(v));
        list_holds(params, env, back, v);
        assert(wanted2.contains(env[v]) == wanted.contains(v));
        let before = ir_normalize::pick(less, wanted, params);
        assert(renamed_list(before.push(v), env) =~= renamed_list(before, env).push(env[v]));
    } else {
        assert(renamed_list(ir_normalize::pick(order, wanted, params), env) =~= Seq::empty());
    }
}

proof fn ssa_params_renamed(
    a: Blocks,
    b: Blocks,
    order: Seq<Seq<char>>,
    id: u32,
    env: Map<Seq<char>, Seq<char>>,
    back: Map<Seq<char>, Seq<char>>,
)
    requires
        inverse(env, back),
        renamed_blocks(a, b, env),
        all_named(order, env),
        carried(a, id),
    ensures
        ({
            let x = ir::block_at(a, id)->0;
            let y = ir::block_at(b, id)->0;
            let old_list = ir_normalize::ssa_params(x, ir_flow::required(a, id), order);
            &&& ir_normalize::ssa_params(
                y,
                ir_flow::required(b, id),
                renamed_list(order, env),
            ) == renamed_list(old_list, env)
            &&& all_named(old_list, env)
            &&& x.params.len() == y.params.len()
        }),
{
    let x = ir::block_at(a, id)->0;
    let y = ir::block_at(b, id)->0;
    let none: Seq<Seq<char>> = Seq::empty();
    renamed_found(a, b, env, id);
    params_renamed(x, y, env);
    required_mirrors(a, b, env, back, id);
    add_names_renamed(none, x.params, env, back);
    assert(renamed_list(none, env) =~= none);
    pick_renamed(order, ir_flow::required(a, id), ir_flow::required(b, id), x.params, env, back);
    let own = ir_normalize::add_names(none, x.params);
    let more = ir_normalize::pick(order, ir_flow::required(a, id), x.params);
    assert(renamed_list(own + more, env) =~= renamed_list(own, env) + renamed_list(more, env));
    let all = own + more;
    assert forall|i: int| 0 <= i < all.len() implies env.contains_key(#[trigger] all[i]) by {
        if i < own.len() {
            assert(all[i] == own[i]);
        } else {
            assert(all[i] == more[i - own.len()]);
        }
    }
}

proof fn exprs_sum(a: Seq<ExprV>, b: Seq<ExprV>, env: Map<Seq<char>, Seq<char>>)
    requires
        ir_normalize::renamed_exprs(a, env) is Some,
        ir_normalize::renamed_exprs(b, env) is Some,
    ensures
        ir_normalize::renamed_exprs(a + b, env) == Some(
            ir_normalize::renamed_exprs(a, env)->0 + ir_normalize::renamed_exprs(b, env)->0,
        ),
    decreases b.len(),
{
    let x = ir_normalize::renamed_exprs(a, env)->0;
    if b.len() == 0 {
        assert(a + b =~= a);
        assert(x + ir_normalize::renamed_exprs(b, env)->0 =~= x);
    } else {
        exprs_sum(a, b.drop_last(), env);
        assert((a + b).drop_last() =~= a + b.drop_last());
        assert((a + b)[(a + b).len() - 1] == b[b.len() - 1]);
        let y = ir_normalize::renamed_exprs(b.drop_last(), env)->0;
        let e = ir_normalize::renamed_expr(b[b.len() - 1], env)->0;
        assert((x + y).push(e) =~= x + y.push(e));
    }
}

proof fn vars_renamed(list: Seq<Seq<char>>, env: Map<Seq<char>, Seq<char>>)
    requires
        all_named(list, env),
    ensures
        ir_normalize::renamed_exprs(ir_normalize::as_exprs(list), env) == Some(
            ir_normalize::as_exprs(renamed_list(list, env)),
        ),
    decreases list.len(),
{
    let e = ir_normalize::as_exprs(list);
    let f = ir_normalize::as_exprs(renamed_list(list, env));
    if list.len() > 0 {
        let less = list.drop_last();
        assert forall|i: int| 0 <= i < less.len() implies env.contains_key(#[trigger] less[i]) by {
            assert(less[i] == list[i]);
        }
        vars_renamed(less, env);
        assert(e.drop_last() =~= ir_normalize::as_exprs(less));
        let v = list[list.len() - 1];
        assert(env.contains_key(v));
        assert(e[e.len() - 1] == ExprV::Var(v));
        assert(ir_normalize::renamed_expr(ExprV::Var(v), env) == Some(ExprV::Var(env[v])));
        assert(f.last() == ExprV::Var(env[v]));
        assert(f =~= ir_normalize::as_exprs(renamed_list(less, env)).push(f.last()));
    } else {
        assert(e.len() == 0);
        assert(f =~= Seq::empty());
    }
}

proof fn ssa_args_renamed(
    a: Blocks,
    b: Blocks,
    order: Seq<Seq<char>>,
    id: u32,
    args: Seq<ExprV>,
    env: Map<Seq<char>, Seq<char>>,
    back: Map<Seq<char>, Seq<char>>,
)
    requires
        inverse(env, back),
        renamed_blocks(a, b, env),
        all_named(order, env),
        ir_normalize::renamed_exprs(args, env) is Some,
    ensures
        ir_normalize::renamed_exprs(ir_normalize::ssa_args(a, order, id, args), env) == Some(
            ir_normalize::ssa_args(
                b,
                renamed_list(order, env),
                id,
                ir_normalize::renamed_exprs(args, env)->0,
            ),
        ),
{
    renamed_found(a, b, env, id);
    if carried(a, id) {
        ssa_params_renamed(a, b, order, id, env, back);
        let x = ir::block_at(a, id)->0;
        let all = ir_normalize::ssa_params(x, ir_flow::required(a, id), order);
        let rest = ir_normalize::beyond(all, x.params.len());
        assert forall|i: int| 0 <= i < rest.len() implies env.contains_key(#[trigger] rest[i]) by {
            assert(rest[i] == all[i + x.params.len()]);
        }
        assert(renamed_list(rest, env) =~= ir_normalize::beyond(
            renamed_list(all, env),
            x.params.len(),
        ));
        vars_renamed(rest, env);
        exprs_sum(args, ir_normalize::as_exprs(rest), env);
    }
}

proof fn arms_from_points(a: Seq<MatchArmV>, b: Seq<MatchArmV>, env: Map<Seq<char>, Seq<char>>)
    requires
        a.len() == b.len(),
        forall|i: int|
            0 <= i < a.len() ==> (#[trigger] b[i]).block == a[i].block && b[i].pattern
                == a[i].pattern && ir_normalize::renamed_exprs(a[i].args, env) == Some(b[i].args),
    ensures
        ir_normalize::renamed_arms(a, env) == Some(b),
    decreases a.len(),
{
    if a.len() > 0 {
        let ra = a.drop_last();
        let rb = b.drop_last();
        assert forall|i: int| 0 <= i < ra.len() implies (#[trigger] rb[i]).block == ra[i].block
            && rb[i].pattern == ra[i].pattern && ir_normalize::renamed_exprs(ra[i].args, env)
            == Some(rb[i].args) by {
            assert(rb[i] == b[i]);
        }
        arms_from_points(ra, rb, env);
        let last = b[b.len() - 1];
        assert(last.block == a.last().block);
        assert(b =~= rb.push(last));
    } else {
        assert(b =~= Seq::empty());
    }
}

proof fn ssa_terminator_renamed(
    a: Blocks,
    b: Blocks,
    order: Seq<Seq<char>>,
    t: TerminatorV,
    env: Map<Seq<char>, Seq<char>>,
    back: Map<Seq<char>, Seq<char>>,
)
    requires
        inverse(env, back),
        renamed_blocks(a, b, env),
        all_named(order, env),
        ir_normalize::renamed_terminator(t, env) is Some,
    ensures
        ir_normalize::renamed_terminator(ir_normalize::ssa_terminator(a, order, t), env) == Some(
            ir_normalize::ssa_terminator(
                b,
                renamed_list(order, env),
                ir_normalize::renamed_terminator(t, env)->0,
            ),
        ),
{
    let u = ir_normalize::renamed_terminator(t, env)->0;
    let l = ir_normalize::ssa_terminator(a, order, t);
    let r = ir_normalize::ssa_terminator(b, renamed_list(order, env), u);
    match t {
        TerminatorV::Goto { block, args } => {
            ssa_args_renamed(a, b, order, block, args, env, back);
        },
        TerminatorV::If { cond, then_block, then_args, else_block, else_args } => {
            ssa_args_renamed(a, b, order, then_block, then_args, env, back);
            ssa_args_renamed(a, b, order, else_block, else_args, env, back);
        },
        TerminatorV::Match { value, arms, default, default_args } => {
            arms_keep_edges(arms, env);
            assert forall|i: int| 0 <= i < arms.len() implies (#[trigger] r->arms[i]).block
                == l->arms[i].block && r->arms[i].pattern == l->arms[i].pattern
                && ir_normalize::renamed_exprs(l->arms[i].args, env) == Some(r->arms[i].args) by {
                assert(u->arms[i].block == arms[i].block);
                ssa_args_renamed(a, b, order, arms[i].block, arms[i].args, env, back);
            }
            arms_from_points(l->arms, r->arms, env);
            if let Some(d) = default {
                ssa_args_renamed(a, b, order, d, default_args, env, back);
            }
        },
        _ => {},
    }
}

proof fn relabelled_renamed(t: TerminatorV, ids: Seq<u32>, env: Map<Seq<char>, Seq<char>>)
    requires
        ir_normalize::renamed_terminator(t, env) is Some,
    ensures
        ir_normalize::renamed_terminator(ir_normalize::relabelled(t, ids), env) == Some(
            ir_normalize::relabelled(ir_normalize::renamed_terminator(t, env)->0, ids),
        ),
{
    if let TerminatorV::Match { value, arms, default, default_args } = t {
        let l = ir_normalize::relabelled(t, ids);
        let r = ir_normalize::relabelled(ir_normalize::renamed_terminator(t, env)->0, ids);
        arms_keep_edges(arms, env);
        let now = ir_normalize::renamed_arms(arms, env)->0;
        assert forall|i: int| 0 <= i < arms.len() implies (#[trigger] r->arms[i]).block
            == l->arms[i].block && r->arms[i].pattern == l->arms[i].pattern
            && ir_normalize::renamed_exprs(l->arms[i].args, env) == Some(r->arms[i].args) by {
            assert(now[i].block == arms[i].block);
        }
        arms_from_points(l->arms, r->arms, env);
    }
}

proof fn renamed_is_well_formed(p: ProgramV, q: ProgramV, env: Map<Seq<char>, Seq<char>>)
    requires
        ir_flow::well_formed(p),
        q.entry == p.entry,
        renamed_blocks(p.blocks, q.blocks, env),
    ensures
        ir_flow::well_formed(q),
{
    renamed_found(p.blocks, q.blocks, env, p.entry);
    assert forall|i: int| 0 <= i < q.blocks.len() implies ir_flow::edges_ok(
        q.blocks,
        (#[trigger] q.blocks[i]).1,
    ) by {
        assert(ir_flow::edges_ok(p.blocks, p.blocks[i].1));
        let t = p.blocks[i].1.terminator;
        assert(renamed_block(p.blocks[i].1, q.blocks[i].1, env));
        renaming_keeps_edges(t, env);
        assert forall|k: int| 0 <= k < ir_vars::arities(q.blocks[i].1.terminator).len() implies ir_flow::edge_ok(
            q.blocks,
            #[trigger] ir_vars::arities(q.blocks[i].1.terminator)[k],
        ) by {
            let e = ir_vars::arities(t)[k];
            assert(ir_flow::edge_ok(p.blocks, e));
            renamed_found(p.blocks, q.blocks, env, e.0);
        }
    }
}

proof fn renamed_reaches(a: Blocks, b: Blocks, env: Map<Seq<char>, Seq<char>>, entry: u32)
    requires
        renamed_blocks(a, b, env),
    ensures
        ir_flow::preorder(b, seq![entry], Seq::empty()) == ir_flow::preorder(
            a,
            seq![entry],
            Seq::empty(),
        ),
{
    let ids = ir_flow::preorder(a, seq![entry], Seq::empty());
    assert forall|i: int| 0 <= i < ids.len() implies ir_flow::next_labels(a, #[trigger] ids[i])
        == ir_flow::next_labels(b, ids[i]) by {
        renamed_found(a, b, env, ids[i]);
    }
    ir_normalize::same_preorder(a, b, ids, seq![entry], Seq::empty());
}

/// The numbered SSA forms of programs that differ in names differ in names.
proof fn forms_renamed(
    p: ProgramV,
    q: ProgramV,
    env: Map<Seq<char>, Seq<char>>,
    back: Map<Seq<char>, Seq<char>>,
)
    requires
        inverse(env, back),
        ir_flow::well_formed(p),
        q.entry == p.entry,
        renamed_blocks(p.blocks, q.blocks, env),
    ensures
        renamed_blocks(
            ir_normalize::renumbered(ir_normalize::ssa_program(p)).blocks,
            ir_normalize::renumbered(ir_normalize::ssa_program(q)).blocks,
            env,
        ),
{
    let a = ir_normalize::ssa_program(p);
    let b = ir_normalize::ssa_program(q);
    let ids = ir_flow::reached(p);
    let order = ir_normalize::def_order(p.blocks, ids);
    let l = ir_normalize::renumbered(a).blocks;
    let r = ir_normalize::renumbered(b).blocks;
    renamed_is_well_formed(p, q, env);
    renamed_reaches(p.blocks, q.blocks, env, p.entry);
    ir_normalize::ssa_reaches_the_same(p);
    ir_normalize::ssa_reaches_the_same(q);
    order_renamed(p.blocks, q.blocks, ids, env, back);
    assert forall|i: int| 0 <= i < l.len() implies (#[trigger] r[i]).0 == l[i].0 && renamed_block(
        l[i].1,
        r[i].1,
        env,
    ) by {
        let x = ir::block_at(p.blocks, ids[i])->0;
        ssa_found(p, i);
        ssa_found(q, i);
        renamed_found(p.blocks, q.blocks, env, ids[i]);
        ssa_params_renamed(p.blocks, q.blocks, order, ids[i], env, back);
        ssa_terminator_renamed(p.blocks, q.blocks, order, x.terminator, env, back);
        relabelled_renamed(
            ir_normalize::ssa_terminator(p.blocks, order, x.terminator),
            ids,
            env,
        );
        let y = l[i].1;
        let z = r[i].1;
        assert forall|k: int| 0 <= k < y.params.len() implies ir_normalize::renamed_var(
            #[trigger] y.params[k],
            env,
        ) == Some(z.params[k]) by {
            assert(env.contains_key(y.params[k]));
        }
    }
}

proof fn agrees_one_more(
    s: Naming,
    t: Naming,
    env: Map<Seq<char>, Seq<char>>,
    back: Map<Seq<char>, Seq<char>>,
    v: Seq<char>,
    x: Seq<char>,
)
    requires
        inverse(env, back),
        agrees(env, t.env, s.env),
        env.contains_key(v),
    ensures
        agrees(env, t.env.insert(env[v], x), s.env.insert(v, x)),
{
    let a = s.env.insert(v, x);
    let b = t.env.insert(env[v], x);
    assert forall|w: Seq<char>|
        #![trigger env.contains_key(w)]
        env.contains_key(w) implies ir_normalize::renamed_var(env[w], b)
        == ir_normalize::renamed_var(w, a) by {
        if w != v {
            assert(back[env[w]] == w);
            assert(back[env[v]] == v);
        }
    }
}

proof fn params_named_alike(
    params: Seq<Seq<char>>,
    s: Naming,
    t: Naming,
    env: Map<Seq<char>, Seq<char>>,
    back: Map<Seq<char>, Seq<char>>,
)
    requires
        inverse(env, back),
        agrees(env, t.env, s.env),
        s.next == t.next,
        all_named(params, env),
    ensures
        ({
            let a = ir_normalize::name_params(params, s);
            let b = ir_normalize::name_params(renamed_list(params, env), t);
            a.next == b.next && agrees(env, b.env, a.env)
        }),
    decreases params.len(),
{
    let now = renamed_list(params, env);
    if params.len() > 0 {
        let rest = params.drop_last();
        assert forall|i: int| 0 <= i < rest.len() implies env.contains_key(#[trigger] rest[i]) by {
            assert(rest[i] == params[i]);
        }
        assert(env.contains_key(params[params.len() - 1]));
        params_named_alike(rest, s, t, env, back);
        assert(now.drop_last() =~= renamed_list(rest, env));
        let a = ir_normalize::name_params(rest, s);
        let b = ir_normalize::name_params(renamed_list(rest, env), t);
        agrees_one_more(a, b, env, back, params.last(), ir_normalize::fresh(a.next));
    } else {
        assert(now.len() == 0);
    }
}

proof fn instrs_named_alike(
    x: Seq<InstrV>,
    y: Seq<InstrV>,
    s: Naming,
    t: Naming,
    env: Map<Seq<char>, Seq<char>>,
    back: Map<Seq<char>, Seq<char>>,
)
    requires
        inverse(env, back),
        agrees(env, t.env, s.env),
        s.next == t.next,
        x.len() == y.len(),
        forall|i: int| 0 <= i < x.len() ==> renamed_instr(#[trigger] x[i], env) == Some(y[i]),
    ensures
        ({
            let a = ir_normalize::name_instrs(x, s);
            let b = ir_normalize::name_instrs(y, t);
            match (a, b) {
                (Some(a), Some(b)) => a.0 == b.0 && a.1.next == b.1.next && agrees(
                    env,
                    b.1.env,
                    a.1.env,
                ),
                (None, None) => true,
                _ => false,
            }
        }),
    decreases x.len(),
{
    if x.len() > 0 {
        let rx = x.drop_last();
        let ry = y.drop_last();
        assert forall|i: int| 0 <= i < rx.len() implies renamed_instr(#[trigger] rx[i], env)
            == Some(ry[i]) by {
            assert(rx[i] == x[i]);
        }
        instrs_named_alike(rx, ry, s, t, env, back);
        if let Some((done, now)) = ir_normalize::name_instrs(rx, s) {
            let then = (ir_normalize::name_instrs(ry, t)->0).1;
            let i = x[x.len() - 1];
            let j = y[y.len() - 1];
            assert(renamed_instr(i, env) == Some(j));
            let u = ir_normalize::renamed_uses(i, env)->0;
            uses_twice(i, env, then.env, now.env);
            uses_mirror(i, env, back);
            if let Some(v) = ir_vars::defines(i) {
                agrees_one_more(now, then, env, back, v, ir_normalize::fresh(now.next));
                with_out_renamed(u, env[v], then.env, ir_normalize::fresh(now.next));
            }
        }
    }
}

proof fn with_out_renamed(
    u: InstrV,
    w: Seq<char>,
    env: Map<Seq<char>, Seq<char>>,
    x: Seq<char>,
)
    ensures
        match (
            ir_normalize::renamed_uses(u, env),
            ir_normalize::renamed_uses(ir_normalize::with_out(u, w), env),
        ) {
            (Some(a), Some(b)) => ir_normalize::with_out(a, x) == ir_normalize::with_out(b, x),
            (None, None) => true,
            _ => false,
        },
{
}

proof fn block_named_alike(
    b: BlockV,
    c: BlockV,
    s: Naming,
    t: Naming,
    env: Map<Seq<char>, Seq<char>>,
    back: Map<Seq<char>, Seq<char>>,
)
    requires
        inverse(env, back),
        agrees(env, t.env, s.env),
        s.next == t.next,
        renamed_block(b, c, env),
    ensures
        match (ir_normalize::name_block(b, s), ir_normalize::name_block(c, t)) {
            (Some(x), Some(y)) => x.0 == y.0 && x.1.next == y.1.next && agrees(
                env,
                y.1.env,
                x.1.env,
            ),
            (None, None) => true,
            _ => false,
        },
{
    params_renamed(b, c, env);
    params_named_alike(b.params, s, t, env, back);
    let s1 = ir_normalize::name_params(b.params, s);
    let t1 = ir_normalize::name_params(c.params, t);
    instrs_named_alike(b.instructions, c.instructions, s1, t1, env, back);
    if let Some((done, now)) = ir_normalize::name_instrs(b.instructions, s1) {
        let then = (ir_normalize::name_instrs(c.instructions, t1)->0).1;
        terminator_twice(b.terminator, env, then.env, now.env);
        assert(Seq::new(b.params.len(), |i: int| ir_normalize::fresh((s.next + i) as nat))
            =~= Seq::new(c.params.len(), |i: int| ir_normalize::fresh((t.next + i) as nat)));
    }
}

proof fn blocks_named_alike(
    a: Blocks,
    b: Blocks,
    env: Map<Seq<char>, Seq<char>>,
    back: Map<Seq<char>, Seq<char>>,
)
    requires
        inverse(env, back),
        renamed_blocks(a, b, env),
    ensures
        match (ir_normalize::name_blocks(a), ir_normalize::name_blocks(b)) {
            (Some(x), Some(y)) => x.0 == y.0 && x.1.next == y.1.next && agrees(
                env,
                y.1.env,
                x.1.env,
            ),
            (None, None) => true,
            _ => false,
        },
    decreases a.len(),
{
    if a.len() > 0 {
        let ra = a.drop_last();
        let rb = b.drop_last();
        assert forall|i: int| 0 <= i < ra.len() implies (#[trigger] rb[i]).0 == ra[i].0
            && renamed_block(ra[i].1, rb[i].1, env) by {
            assert(rb[i] == b[i]);
        }
        blocks_named_alike(ra, rb, env, back);
        assert(b[b.len() - 1].0 == a[a.len() - 1].0);
        if let Some((done, s)) = ir_normalize::name_blocks(ra) {
            let t = (ir_normalize::name_blocks(rb)->0).1;
            block_named_alike(a.last().1, b.last().1, s, t, env, back);
        }
    }
}

/// Whether no two names are renamed to the same.
pub open spec fn distinct_names(env: Map<Seq<char>, Seq<char>>) -> bool {
    forall|v: Seq<char>, w: Seq<char>|
        #![trigger env.contains_key(v), env.contains_key(w)]
        env.contains_key(v) && env.contains_key(w) && env[v] == env[w] ==> v == w
}

/// What undoes a renaming.
spec fn undoing(env: Map<Seq<char>, Seq<char>>) -> Map<Seq<char>, Seq<char>> {
    Map::new(
        |w: Seq<char>| exists|v: Seq<char>| #[trigger] env.contains_key(v) && env[v] == w,
        |w: Seq<char>| choose|v: Seq<char>| #[trigger] env.contains_key(v) && env[v] == w,
    )
}

proof fn undoing_undoes(env: Map<Seq<char>, Seq<char>>)
    requires
        distinct_names(env),
    ensures
        inverse(env, undoing(env)),
{
    let back = undoing(env);
    assert forall|v: Seq<char>|
        #![trigger env.contains_key(v)]
        env.contains_key(v) implies back.contains_key(env[v]) && back[env[v]] == v by {
        let u = choose|u: Seq<char>| #[trigger] env.contains_key(u) && env[u] == env[v];
        assert(back[env[v]] == u);
        assert(env.contains_key(u));
    }
    assert forall|w: Seq<char>|
        #![trigger back.contains_key(w)]
        back.contains_key(w) implies env.contains_key(back[w]) && env[back[w]] == w by {
        let u = choose|u: Seq<char>| #[trigger] env.contains_key(u) && env[u] == w;
        assert(back[w] == u);
    }
}

/// Renaming the variables of a well-formed program consistently does not
/// change its canonical form, the hash of that form, or whether it is valid.
pub proof fn names_do_not_matter(p: ProgramV, q: ProgramV, env: Map<Seq<char>, Seq<char>>)
    requires
        ir_flow::well_formed(p),
        q.entry == p.entry,
        distinct_names(env),
        renamed_blocks(p.blocks, q.blocks, env),
    ensures
        ir_normalize::normal_form(q) == ir_normalize::normal_form(p),
        ir_flow::valid(q) == ir_flow::valid(p),
        ir_hash::canonical_digest(q) == ir_hash::canonical_digest(p),
{
    let back = undoing(env);
    undoing_undoes(env);
    forms_renamed(p, q, env, back);
    blocks_named_alike(
        ir_normalize::renumbered(ir_normalize::ssa_program(p)).blocks,
        ir_normalize::renumbered(ir_normalize::ssa_program(q)).blocks,
        env,
        back,
    );
    renamed_is_well_formed(p, q, env);
    required_mirrors(p.blocks, q.blocks, env, back, p.entry);
    let s = ir_flow::required(p.blocks, p.entry);
    let t = ir_flow::required(q.blocks, q.entry);
    if ir_flow::valid(p) {
        assert forall|w: Seq<char>| !t.contains(w) by {
            if t.contains(w) {
                assert(s.contains(back[w]));
                assert(!Set::<Seq<char>>::empty().contains(back[w]));
            }
        }
        assert(t =~= Set::empty());
    }
    if ir_flow::valid(q) {
        assert forall|v: Seq<char>| !s.contains(v) by {
            if s.contains(v) {
                assert(env.contains_key(v));
                assert(t.contains(env[v]));
                assert(!Set::<Seq<char>>::empty().contains(env[v]));
            }
        }
        assert(s =~= Set::empty());
    }
}

/// The hash of a program is that of its canonical form: programs with equal
/// canonical forms have equal hashes, and one without has none.
pub proof fn equal_forms_hash_alike(p: ProgramV, q: ProgramV)
    requires
        ir_normalize::canonical_form(p) == ir_normalize::canonical_form(q),
    ensures
        ir_hash::canonical_digest(p) == ir_hash::canonical_digest(q),
        ir_normalize::canonical_form(p) is None <==> ir_hash::canonical_digest(p) is None,
{
}

} // verus!
