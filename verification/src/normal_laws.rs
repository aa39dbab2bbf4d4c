//! What normalization guarantees: the canonical form of a valid program
//! exists and is in strict SSA form.
use crate::ir;
use crate::ir::{
    BlockV, Blocks, EvalRequestV, ExprV, InstrV, MatchArmV, ProgramV, PromptRefV, TerminatorV,
};
use crate::ir_flow;
use crate::ir_normalize;
use crate::ir_normalize::Naming;
use crate::ir_vars;
use vstd::prelude::*;

verus! {

/// No reached block branches in parallel, and none names a parameter twice.
pub open spec fn sequential(p: ProgramV) -> bool {
    forall|i: int|
        0 <= i < ir_flow::reached(p).len() ==> {
            let b = ir::block_at(p.blocks, #[trigger] ir_flow::reached(p)[i])->0;
            b.params.no_duplicates() && !(b.terminator is Par)
        }
}

/// Adding distinct names to an empty list gives the names.
pub proof fn add_distinct(list: Seq<Seq<char>>)
    requires
        list.no_duplicates(),
    ensures
        ir_normalize::add_names(Seq::empty(), list) == list,
    decreases list.len(),
{
    if list.len() > 0 {
        let before = list.drop_last();
        assert(before.no_duplicates()) by {
            assert(forall|i: int| 0 <= i < before.len() ==> before[i] == list[i]);
        }
        add_distinct(before);
        assert(!before.contains(list.last())) by {
            if before.contains(list.last()) {
                let k = choose|k: int| 0 <= k < before.len() && before[k] == list.last();
                assert(list[k] == list[list.len() - 1]);
            }
        }
        assert(before.push(list.last()) =~= list);
    } else {
        assert(ir_normalize::add_names(Seq::empty(), list) =~= list);
    }
}

/// The picked names are the wanted ones that are in the order and not
/// parameters.
proof fn picked(
    order: Seq<Seq<char>>,
    wanted: Set<Seq<char>>,
    params: Seq<Seq<char>>,
    x: Seq<char>,
)
    ensures
        ir_normalize::pick(order, wanted, params).contains(x) <==> order.contains(x)
            && wanted.contains(x) && !params.contains(x),
    decreases order.len(),
{
    if order.len() > 0 {
        let rest = order.drop_last();
        picked(rest, wanted, params, x);
        let before = ir_normalize::pick(rest, wanted, params);
        contains_last(order, x);
        let after = before.push(order.last());
        contains_last(after, x);
        assert(after.drop_last() =~= before);
    }
}

proof fn contains_last(s: Seq<Seq<char>>, x: Seq<char>)
    requires
        s.len() > 0,
    ensures
        s.contains(x) <==> s.drop_last().contains(x) || x == s.last(),
{
    if s.contains(x) {
        let k = choose|k: int| 0 <= k < s.len() && s[k] == x;
        if k < s.len() - 1 {
            assert(s.drop_last()[k] == x);
        }
    }
    if s.drop_last().contains(x) {
        let k = choose|k: int| 0 <= k < s.drop_last().len() && s.drop_last()[k] == x;
        assert(s[k] == x);
    }
    assert(s[s.len() - 1] == s.last());
}

proof fn contains_sum(a: Seq<Seq<char>>, b: Seq<Seq<char>>, x: Seq<char>)
    ensures
        (a + b).contains(x) <==> a.contains(x) || b.contains(x),
{
    let s = a + b;
    if s.contains(x) {
        let k = choose|k: int| 0 <= k < s.len() && s[k] == x;
        if k < a.len() {
            assert(a[k] == x);
        } else {
            assert(b[k - a.len()] == x);
        }
    }
    if a.contains(x) {
        let k = choose|k: int| 0 <= k < a.len() && a[k] == x;
        assert(s[k] == x);
    }
    if b.contains(x) {
        let k = choose|k: int| 0 <= k < b.len() && b[k] == x;
        assert(s[a.len() + k] == x);
    }
}

proof fn add_name_members(list: Seq<Seq<char>>, v: Seq<char>, x: Seq<char>)
    ensures
        ir_normalize::add_name(list, v).contains(x) <==> list.contains(x) || x == v,
{
    if !list.contains(v) {
        contains_last(list.push(v), x);
        assert(list.push(v).drop_last() =~= list);
    }
}

proof fn add_names_members(list: Seq<Seq<char>>, more: Seq<Seq<char>>, x: Seq<char>)
    ensures
        ir_normalize::add_names(list, more).contains(x) <==> list.contains(x) || more.contains(x),
    decreases more.len(),
{
    if more.len() > 0 {
        add_names_members(list, more.drop_last(), x);
        add_name_members(ir_normalize::add_names(list, more.drop_last()), more.last(), x);
        contains_last(more, x);
    }
}

/// The order holds what a block defines.
proof fn add_outs_members(list: Seq<Seq<char>>, b: BlockV, n: int, x: Seq<char>)
    requires
        0 <= n <= b.instructions.len(),
        b.params.contains(x) ==> list.contains(x),
    ensures
        ir_vars::defined_by(b, n).contains(x) ==> ir_normalize::add_outs(
            list,
            b.instructions.take(n),
        ).contains(x),
        list.contains(x) ==> ir_normalize::add_outs(list, b.instructions.take(n)).contains(x),
    decreases n,
{
    if n > 0 {
        add_outs_members(list, b, n - 1, x);
        let now = b.instructions.take(n);
        assert(now.drop_last() =~= b.instructions.take(n - 1));
        assert(now.last() == b.instructions[n - 1]);
        if let Some(v) = ir_vars::defines(b.instructions[n - 1]) {
            add_name_members(ir_normalize::add_outs(list, b.instructions.take(n - 1)), v, x);
        }
    }
}

/// Every variable that a listed block defines is in the order.
proof fn order_holds_definitions(blocks: Blocks, ids: Seq<u32>, i: int, x: Seq<char>)
    requires
        0 <= i < ids.len(),
        ir::block_at(blocks, ids[i]) is Some,
        ir_vars::all_defined(ir::block_at(blocks, ids[i])->0).contains(x),
    ensures
        ir_normalize::def_order(blocks, ids).contains(x),
    decreases ids.len(),
{
    let before = ir_normalize::def_order(blocks, ids.drop_last());
    if i < ids.len() - 1 {
        assert(ids.drop_last()[i] == ids[i]);
        order_holds_definitions(blocks, ids.drop_last(), i, x);
        if let Some(b) = ir::block_at(blocks, ids.last()) {
            let middle = ir_normalize::add_names(before, b.params);
            add_names_members(before, b.params, x);
            add_outs_members(middle, b, b.instructions.len() as int, x);
            assert(b.instructions.take(b.instructions.len() as int) =~= b.instructions);
        }
    } else {
        let b = ir::block_at(blocks, ids[i])->0;
        let middle = ir_normalize::add_names(before, b.params);
        add_names_members(before, b.params, x);
        add_outs_members(middle, b, b.instructions.len() as int, x);
        assert(b.instructions.take(b.instructions.len() as int) =~= b.instructions);
    }
}

/// A variable that a reached block requires and no reached block defines is
/// required at the entry.
proof fn undefined_reaches_entry(p: ProgramV, i: int, x: Seq<char>)
    requires
        ir_flow::well_formed(p),
        0 <= i < ir_flow::reached(p).len(),
        ir_flow::required(p.blocks, ir_flow::reached(p)[i]).contains(x),
        forall|j: int|
            0 <= j < ir_flow::reached(p).len() ==> !ir_vars::all_defined(
                ir::block_at(p.blocks, #[trigger] ir_flow::reached(p)[j])->0,
            ).contains(x),
    ensures
        ir_flow::required(p.blocks, p.entry).contains(x),
    decreases i,
{
    ir_flow::reached_facts(p);
    ir_normalize::reached_are_present(p);
    let ids = ir_flow::reached(p);
    if i > 0 {
        let before = ids.take(i);
        assert(ir_flow::follows(p.blocks, before, ids[i]));
        let j = choose|j: int|
            0 <= j < before.len() && (#[trigger] ir_flow::next_labels(
                p.blocks,
                before[j],
            )).contains(ids[i]);
        let next = ir_flow::next_labels(p.blocks, before[j]);
        let k = choose|k: int| 0 <= k < next.len() && next[k] == ids[i];
        assert(before[j] == ids[j]);
        assert(ir::block_at(p.blocks, ids[j]) is Some);
        ir_flow::required_flows_back(p.blocks, ids[j], k, x);
        undefined_reaches_entry(p, j, x);
    }
}

/// In a valid program everything that a reached block requires is defined
/// somewhere that is reached.
pub proof fn required_is_ordered(p: ProgramV, i: int, x: Seq<char>)
    requires
        ir_flow::valid(p),
        0 <= i < ir_flow::reached(p).len(),
        ir_flow::required(p.blocks, ir_flow::reached(p)[i]).contains(x),
    ensures
        ir_normalize::def_order(p.blocks, ir_flow::reached(p)).contains(x),
{
    let ids = ir_flow::reached(p);
    ir_normalize::reached_are_present(p);
    if forall|j: int|
        0 <= j < ids.len() ==> !ir_vars::all_defined(
            ir::block_at(p.blocks, #[trigger] ids[j])->0,
        ).contains(x) {
        undefined_reaches_entry(p, i, x);
        assert(!Set::<Seq<char>>::empty().contains(x));
    } else {
        let j = choose|j: int|
            0 <= j < ids.len() && ir_vars::all_defined(
                ir::block_at(p.blocks, #[trigger] ids[j])->0,
            ).contains(x);
        assert(ir::block_at(p.blocks, ids[j]) is Some);
        order_holds_definitions(p.blocks, ids, j, x);
    }
}

/// A block in SSA form takes its own parameters and everything it requires.
proof fn ssa_params_members(p: ProgramV, i: int, x: Seq<char>)
    requires
        ir_flow::valid(p),
        sequential(p),
        0 <= i < ir_flow::reached(p).len(),
    ensures
        ({
            let id = ir_flow::reached(p)[i];
            let b = ir::block_at(p.blocks, id)->0;
            let order = ir_normalize::def_order(p.blocks, ir_flow::reached(p));
            let params = ir_normalize::ssa_params(b, ir_flow::required(p.blocks, id), order);
            &&& params.contains(x) <==> b.params.contains(x) || ir_flow::required(
                p.blocks,
                id,
            ).contains(x)
            &&& params.len() >= b.params.len()
            &&& ir_normalize::beyond(params, b.params.len()).contains(x) ==> ir_flow::required(
                p.blocks,
                id,
            ).contains(x)
        }),
{
    let ids = ir_flow::reached(p);
    let id = ids[i];
    let b = ir::block_at(p.blocks, id)->0;
    let order = ir_normalize::def_order(p.blocks, ids);
    let wanted = ir_flow::required(p.blocks, id);
    let extra = ir_normalize::pick(order, wanted, b.params);
    assert(b.params.no_duplicates());
    add_distinct(b.params);
    picked(order, wanted, b.params, x);
    contains_sum(b.params, extra, x);
    if wanted.contains(x) {
        required_is_ordered(p, i, x);
    }
    assert((b.params + extra).skip(b.params.len() as int) =~= extra);
}

/// With more parameters a block defines more, and no more is free.
proof fn more_params(b: BlockV, c: BlockV, n: int)
    requires
        0 <= n <= b.instructions.len(),
        c.instructions == b.instructions,
        forall|x: Seq<char>| b.params.contains(x) ==> #[trigger] c.params.contains(x),
    ensures
        ir_vars::defined_by(b, n).subset_of(ir_vars::defined_by(c, n)),
        forall|x: Seq<char>| #[trigger]
            c.params.contains(x) ==> ir_vars::defined_by(c, n).contains(x),
        forall|x: Seq<char>| #[trigger]
            ir_vars::free_before(c, n).contains(x) ==> ir_vars::free_before(b, n).contains(x)
                && !c.params.contains(x),
    decreases n,
{
    if n > 0 {
        more_params(b, c, n - 1);
        assert forall|x: Seq<char>| #[trigger]
            ir_vars::free_before(c, n).contains(x) implies ir_vars::free_before(b, n).contains(x)
            && !c.params.contains(x) by {
            if !ir_vars::free_before(c, n - 1).contains(x) {
                assert(!ir_vars::defined_by(c, n - 1).contains(x));
                assert(!ir_vars::defined_by(b, n - 1).contains(x));
            }
        }
    }
}

/// Free variables of a shorter prefix are free in the block.
proof fn free_grows(b: BlockV, x: Seq<char>)
    ensures
        ir_vars::free_before(b, b.instructions.len() as int).contains(x) ==> ir_vars::free_vars(
            b,
        ).contains(x),
{
}

proof fn as_exprs_vars(list: Seq<Seq<char>>, x: Seq<char>)
    ensures
        ir_vars::exprs_vars(ir_normalize::as_exprs(list)).contains(x) <==> list.contains(x),
    decreases list.len(),
{
    let es = ir_normalize::as_exprs(list);
    if list.len() > 0 {
        as_exprs_vars(list.drop_last(), x);
        assert(es.drop_last() =~= ir_normalize::as_exprs(list.drop_last()));
        assert(ir_vars::expr_vars(es[es.len() - 1]) == set![list.last()]);
        contains_last(list, x);
    }
}

proof fn exprs_vars_sum(a: Seq<ExprV>, b: Seq<ExprV>, x: Seq<char>)
    ensures
        ir_vars::exprs_vars(a + b).contains(x) <==> ir_vars::exprs_vars(a).contains(x)
            || ir_vars::exprs_vars(b).contains(x),
    decreases b.len(),
{
    if b.len() > 0 {
        exprs_vars_sum(a, b.drop_last(), x);
        assert((a + b).drop_last() =~= a + b.drop_last());
    } else {
        assert(a + b =~= a);
    }
}

/// What the added arguments of an edge read, the target requires; and the
/// edge then carries as many arguments as the target takes.
proof fn ssa_args_facts(p: ProgramV, target: u32, existing: Seq<ExprV>, x: Seq<char>)
    requires
        ir_flow::valid(p),
        sequential(p),
        ir_flow::reached(p).contains(target),
    ensures
        ({
            let order = ir_normalize::def_order(p.blocks, ir_flow::reached(p));
            let args = ir_normalize::ssa_args(p.blocks, order, target, existing);
            let b = ir::block_at(p.blocks, target)->0;
            &&& ir_vars::exprs_vars(args).contains(x) ==> ir_vars::exprs_vars(existing).contains(x)
                || ir_flow::required(p.blocks, target).contains(x)
            &&& existing.len() == b.params.len() ==> args.len() == ir_normalize::ssa_params(
                b,
                ir_flow::required(p.blocks, target),
                order,
            ).len()
        }),
{
    let ids = ir_flow::reached(p);
    let i = choose|i: int| 0 <= i < ids.len() && ids[i] == target;
    ir_normalize::reached_are_present(p);
    assert(ir::block_at(p.blocks, ids[i]) is Some);
    ssa_params_members(p, i, x);
    let b = ir::block_at(p.blocks, target)->0;
    let order = ir_normalize::def_order(p.blocks, ids);
    let params = ir_normalize::ssa_params(b, ir_flow::required(p.blocks, target), order);
    let extra = ir_normalize::beyond(params, b.params.len());
    as_exprs_vars(extra, x);
    exprs_vars_sum(existing, ir_normalize::as_exprs(extra), x);
}

/// What some arms in SSA form read.
proof fn ssa_arms_vars(p: ProgramV, arms: Seq<MatchArmV>, now: Seq<MatchArmV>, x: Seq<char>)
    requires
        ir_flow::valid(p),
        sequential(p),
        forall|k: int|
            0 <= k < arms.len() ==> ir_flow::reached(p).contains((#[trigger] arms[k]).block),
        now.len() == arms.len(),
        forall|k: int|
            0 <= k < arms.len() ==> (#[trigger] now[k]).args == ir_normalize::ssa_args(
                p.blocks,
                ir_normalize::def_order(p.blocks, ir_flow::reached(p)),
                arms[k].block,
                arms[k].args,
            ),
        ir_vars::arms_vars(now).contains(x),
    ensures
        ir_vars::arms_vars(arms).contains(x) || exists|k: int|
            0 <= k < arms.len() && ir_flow::required(p.blocks, (#[trigger] arms[k]).block).contains(
                x,
            ),
    decreases arms.len(),
{
    if arms.len() > 0 {
        let n = arms.len() - 1;
        assert(now.last() == now[n]);
        assert(arms.last() == arms[n]);
        if ir_vars::exprs_vars(now[n].args).contains(x) {
            ssa_args_facts(p, arms[n].block, arms[n].args, x);
        } else {
            let a = arms.drop_last();
            let c = now.drop_last();
            assert(forall|k: int| 0 <= k < a.len() ==> a[k] == arms[k] && c[k] == now[k]);
            ssa_arms_vars(p, a, c, x);
            if !ir_vars::arms_vars(a).contains(x) {
                let k = choose|k: int|
                    0 <= k < a.len() && ir_flow::required(
                        p.blocks,
                        (#[trigger] a[k]).block,
                    ).contains(x);
                assert(ir_flow::required(p.blocks, arms[k].block).contains(x));
            }
        }
    }
}

/// A terminator in SSA form reads what it read before and what its targets
/// require.
proof fn ssa_terminator_uses(p: ProgramV, i: int, x: Seq<char>)
    requires
        ir_flow::valid(p),
        sequential(p),
        0 <= i < ir_flow::reached(p).len(),
    ensures
        ({
            let id = ir_flow::reached(p)[i];
            let b = ir::block_at(p.blocks, id)->0;
            let order = ir_normalize::def_order(p.blocks, ir_flow::reached(p));
            let t = ir_normalize::ssa_terminator(p.blocks, order, b.terminator);
            &&& ir_vars::control_uses(t) == ir_vars::control_uses(b.terminator)
            &&& ir_vars::value_uses(t).contains(x) ==> ir_vars::value_uses(b.terminator).contains(x)
                || exists|k: int|
                0 <= k < ir_flow::next_labels(p.blocks, id).len() && ir_flow::required(
                    p.blocks,
                    #[trigger] ir_flow::next_labels(p.blocks, id)[k],
                ).contains(x)
        }),
{
    let ids = ir_flow::reached(p);
    let id = ids[i];
    ir_flow::reached_facts(p);
    ir_normalize::reached_are_present(p);
    assert(ir::block_at(p.blocks, ids[i]) is Some);
    let b = ir::block_at(p.blocks, id)->0;
    let next = ir_flow::next_labels(p.blocks, id);
    let order = ir_normalize::def_order(p.blocks, ids);
    let t = ir_normalize::ssa_terminator(p.blocks, order, b.terminator);
    assert(forall|k: int| 0 <= k < next.len() ==> ids.contains(#[trigger] next[k]));
    match b.terminator {
        TerminatorV::Goto { block, args } => {
            assert(next[0] == block);
            ssa_args_facts(p, block, args, x);
        },
        TerminatorV::If { cond, then_block, then_args, else_block, else_args } => {
            assert(next[0] == then_block);
            assert(next[1] == else_block);
            ssa_args_facts(p, then_block, then_args, x);
            ssa_args_facts(p, else_block, else_args, x);
        },
        TerminatorV::Match { value, arms, default, default_args } => {
            assert forall|k: int| 0 <= k < arms.len() implies ids.contains(
                (#[trigger] arms[k]).block,
            ) by {
                assert(next[k] == arms[k].block);
            }
            if ir_vars::arms_vars(t->arms).contains(x) {
                ssa_arms_vars(p, arms, t->arms, x);
                if !ir_vars::arms_vars(arms).contains(x) {
                    let k = choose|k: int|
                        0 <= k < arms.len() && ir_flow::required(
                            p.blocks,
                            (#[trigger] arms[k]).block,
                        ).contains(x);
                    assert(next[k] == arms[k].block);
                }
            }
            if let Some(d) = default {
                assert(next[arms.len() as int] == d);
                ssa_args_facts(p, d, default_args, x);
            }
        },
        _ => {},
    }
}

/// Every block in SSA form is local.
proof fn ssa_block_is_local(p: ProgramV, i: int)
    requires
        ir_flow::valid(p),
        sequential(p),
        0 <= i < ir_flow::reached(p).len(),
    ensures
        ir_flow::local(ir_normalize::ssa_program(p).blocks[i].1),
{
    let ids = ir_flow::reached(p);
    let id = ids[i];
    ir_normalize::reached_are_present(p);
    assert(ir::block_at(p.blocks, ids[i]) is Some);
    let b = ir::block_at(p.blocks, id)->0;
    let c = ir_normalize::ssa_program(p).blocks[i].1;
    let n = b.instructions.len() as int;
    ir_flow::free_is_required(p.blocks, id);
    assert forall|x: Seq<char>| #[trigger] c.params.contains(x) <==> b.params.contains(x)
        || ir_flow::required(p.blocks, id).contains(x) by {
        ssa_params_members(p, i, x);
    }
    more_params(b, c, n);
    assert forall|x: Seq<char>| !ir_vars::free_vars(c).contains(x) by {
        if ir_vars::free_vars(c).contains(x) {
            ssa_terminator_uses(p, i, x);
            if ir_vars::free_before(c, n).contains(x) {
                free_grows(b, x);
                assert(ir_flow::required(p.blocks, id).contains(x));
            } else {
                assert(!ir_vars::all_defined(c).contains(x));
                assert(!c.params.contains(x));
                if ir_vars::value_uses(b.terminator).contains(x) || ir_vars::control_uses(
                    b.terminator,
                ).contains(x) {
                    assert(ir_vars::free_vars(b).contains(x));
                } else {
                    let next = ir_flow::next_labels(p.blocks, id);
                    let k = choose|k: int|
                        0 <= k < next.len() && ir_flow::required(
                            p.blocks,
                            #[trigger] next[k],
                        ).contains(x);
                    ir_flow::required_flows_back(p.blocks, id, k, x);
                }
            }
        }
    }
    assert(ir_vars::free_vars(c) =~= Set::<Seq<char>>::empty());
}

/// Every edge in SSA form carries as many arguments as its target takes.
proof fn ssa_edges_are_ok(p: ProgramV, i: int)
    requires
        ir_flow::valid(p),
        sequential(p),
        0 <= i < ir_flow::reached(p).len(),
    ensures
        ir_flow::edges_ok(
            ir_normalize::ssa_program(p).blocks,
            ir_normalize::ssa_program(p).blocks[i].1,
        ),
{
    let ids = ir_flow::reached(p);
    let q = ir_normalize::ssa_program(p);
    ir_flow::reached_facts(p);
    ir_normalize::reached_are_present(p);
    assert(ir::block_at(p.blocks, ids[i]) is Some);
    let b = ir::block_at(p.blocks, ids[i])->0;
    let order = ir_normalize::def_order(p.blocks, ids);
    let t = ir_normalize::ssa_terminator(p.blocks, order, b.terminator);
    let next = ir_flow::next_labels(p.blocks, ids[i]);
    let ea = ir_vars::edges(b.terminator);
    let eb = ir_vars::edges(t);
    assert(ea.len() == eb.len());
    assert forall|k: int| 0 <= k < ir_vars::arities(t).len() implies ir_flow::edge_ok(
        q.blocks,
        #[trigger] ir_vars::arities(t)[k],
    ) by {
        assert(next[k] == ea[k].0);
        assert(ids.contains(next[k]));
        let a = choose|a: int| 0 <= a < ids.len() && ids[a] == next[k];
        assert(eb[k].0 == ea[k].0);
        assert(eb[k].1 == ir_normalize::ssa_args(p.blocks, order, ea[k].0, ea[k].1));
        ir_normalize::block_at_index(q.blocks, a);
        let target = ir::block_at(p.blocks, next[k])->0;
        assert(ir::block_at(p.blocks, ids[a]) is Some);
        ir::block_at_found(p.blocks, ids[i]);
        let m = choose|m: int| 0 <= m < p.blocks.len() && (#[trigger] p.blocks[m]) == (ids[i], b);
        assert(ir_flow::edges_ok(p.blocks, p.blocks[m].1));
        assert(ir_flow::edge_ok(p.blocks, ir_vars::arities(b.terminator)[k]));
        assert(ea[k].1.len() == target.params.len());
        ssa_args_facts(p, next[k], ea[k].1, Seq::empty());
    }
}

/// Where every block is local and nothing is missing, the program is valid.
proof fn local_blocks_are_valid(p: ProgramV)
    requires
        ir_flow::well_formed(p),
        forall|i: int| 0 <= i < p.blocks.len() ==> ir_flow::local((#[trigger] p.blocks[i]).1),
    ensures
        ir_flow::strict_ssa(p),
{
    assert forall|v: Seq<char>| !ir_flow::required(p.blocks, p.entry).contains(v) by {
        if ir_flow::required(p.blocks, p.entry).contains(v) {
            let n = choose|n: nat| #[trigger] ir_flow::needs(p.blocks, p.entry, v, n);
            local_needs_nothing(p.blocks, p.entry, v, n);
        }
    }
    assert(ir_flow::required(p.blocks, p.entry) =~= Set::<Seq<char>>::empty());
}

pub proof fn local_needs_nothing(blocks: Blocks, id: u32, v: Seq<char>, n: nat)
    requires
        forall|i: int| 0 <= i < blocks.len() ==> ir_flow::local((#[trigger] blocks[i]).1),
    ensures
        !ir_flow::needs(blocks, id, v, n),
    decreases n,
{
    if ir_flow::needs(blocks, id, v, n) {
        ir::block_at_found(blocks, id);
        let b = ir::block_at(blocks, id)->0;
        let m = choose|m: int| 0 <= m < blocks.len() && (#[trigger] blocks[m]) == (id, b);
        assert(ir_flow::local(blocks[m].1));
        assert(!Set::<Seq<char>>::empty().contains(v));
        let next = ir_flow::next_labels(blocks, id);
        let k = choose|k: int|
            0 <= k < next.len() && ir_flow::needs(
                blocks,
                #[trigger] next[k],
                v,
                (n - 1) as nat,
            );
        local_needs_nothing(blocks, next[k], v, (n - 1) as nat);
    }
}

/// The SSA form of a valid sequential program is in strict SSA form.
pub proof fn ssa_form_is_strict(p: ProgramV)
    requires
        ir_flow::valid(p),
        sequential(p),
    ensures
        ir_flow::strict_ssa(ir_normalize::ssa_program(p)),
{
    let q = ir_normalize::ssa_program(p);
    let ids = ir_flow::reached(p);
    ir_flow::reached_facts(p);
    ir_normalize::block_at_index(q.blocks, 0);
    assert(q.blocks[0].0 == p.entry);
    assert forall|i: int| 0 <= i < q.blocks.len() implies ir_flow::edges_ok(
        q.blocks,
        (#[trigger] q.blocks[i]).1,
    ) by {
        ssa_edges_are_ok(p, i);
    }
    assert forall|i: int| 0 <= i < q.blocks.len() implies ir_flow::local(
        (#[trigger] q.blocks[i]).1,
    ) by {
        ssa_block_is_local(p, i);
    }
    local_blocks_are_valid(q);
}

/// A label in a list of distinct labels is at its position.
proof fn position_of(list: Seq<u32>, i: int)
    requires
        list.no_duplicates(),
        0 <= i < list.len(),
    ensures
        ir_normalize::relabel(list, list[i]) == i,
{
    ir_normalize::position_is_first(list, list[i], i);
    ir_normalize::distinct_labels_bound(list);
}

/// The renumbered block at a position.
proof fn renumbered_block(p: ProgramV, i: int)
    requires
        0 <= i < ir_flow::reached(p).len(),
    ensures
        ir::block_at(ir_normalize::renumbered(p).blocks, i as u32) == Some(
            ir_normalize::renumbered(p).blocks[i].1,
        ),
        ir_normalize::renumbered(p).blocks[i].0 == i,
{
    ir_flow::reached_facts(p);
    ir_normalize::distinct_labels_bound(ir_flow::reached(p));
    let q = ir_normalize::renumbered(p);
    assert forall|j: int| 0 <= j < i implies (#[trigger] q.blocks[j]).0 != q.blocks[i].0 by {
        assert(q.blocks[j].0 == j as u32);
    }
    ir_normalize::block_at_index(q.blocks, i);
}

proof fn relabelled_uses(t: TerminatorV, ids: Seq<u32>)
    ensures
        ir_vars::control_uses(ir_normalize::relabelled(t, ids)) == ir_vars::control_uses(t),
        ir_vars::value_uses(ir_normalize::relabelled(t, ids)) == ir_vars::value_uses(t),
        ir_vars::edges(ir_normalize::relabelled(t, ids)).len() == ir_vars::edges(t).len(),
        forall|k: int|
            0 <= k < ir_vars::edges(t).len() ==> #[trigger] ir_vars::edges(
                ir_normalize::relabelled(t, ids),
            )[k] == (
                ir_normalize::relabel(ids, ir_vars::edges(t)[k].0),
                ir_vars::edges(t)[k].1,
            ),
{
    if let TerminatorV::Match { arms, .. } = t {
        same_arms_vars(arms, ir_normalize::relabelled(t, ids)->arms);
    }
}

proof fn same_arms_vars(a: Seq<MatchArmV>, b: Seq<MatchArmV>)
    requires
        a.len() == b.len(),
        forall|k: int| 0 <= k < a.len() ==> (#[trigger] a[k]).args == b[k].args,
    ensures
        ir_vars::arms_vars(a) == ir_vars::arms_vars(b),
    decreases a.len(),
{
    if a.len() > 0 {
        assert(a.last() == a[a.len() - 1]);
        same_arms_vars(a.drop_last(), b.drop_last());
    }
}

proof fn same_instrs_same_defs(b: BlockV, c: BlockV, n: int)
    requires
        0 <= n <= b.instructions.len(),
        c.instructions == b.instructions,
        c.params == b.params,
    ensures
        ir_vars::defined_by(b, n) == ir_vars::defined_by(c, n),
        ir_vars::free_before(b, n) == ir_vars::free_before(c, n),
    decreases n,
{
    if n > 0 {
        same_instrs_same_defs(b, c, n - 1);
    }
}

/// Renumbering keeps strict SSA form.
pub proof fn renumbering_keeps_strict(p: ProgramV)
    requires
        ir_flow::strict_ssa(p),
    ensures
        ir_flow::strict_ssa(ir_normalize::renumbered(p)),
{
    let ids = ir_flow::reached(p);
    let q = ir_normalize::renumbered(p);
    ir_flow::reached_facts(p);
    ir_normalize::reached_are_present(p);
    renumbered_block(p, 0);
    assert forall|i: int| 0 <= i < q.blocks.len() implies ir_flow::edges_ok(
        q.blocks,
        (#[trigger] q.blocks[i]).1,
    ) && ir_flow::local(q.blocks[i].1) by {
        assert(ir::block_at(p.blocks, ids[i]) is Some);
        let b = ir::block_at(p.blocks, ids[i])->0;
        let c = q.blocks[i].1;
        relabelled_uses(b.terminator, ids);
        same_instrs_same_defs(b, c, b.instructions.len() as int);
        ir::block_at_found(p.blocks, ids[i]);
        let m = choose|m: int| 0 <= m < p.blocks.len() && (#[trigger] p.blocks[m]) == (ids[i], b);
        assert(ir_flow::local(p.blocks[m].1));
        assert(ir_vars::free_vars(c) =~= ir_vars::free_vars(b));
        assert(ir_flow::edges_ok(p.blocks, p.blocks[m].1));
        let next = ir_flow::next_labels(p.blocks, ids[i]);
        assert forall|k: int| 0 <= k < ir_vars::arities(c.terminator).len() implies ir_flow::edge_ok(
            q.blocks,
            #[trigger] ir_vars::arities(c.terminator)[k],
        ) by {
            let e = ir_vars::edges(b.terminator)[k];
            assert(ir_vars::edges(c.terminator)[k] == (ir_normalize::relabel(ids, e.0), e.1));
            assert(next[k] == e.0);
            assert(ids.contains(next[k]));
            let a = choose|a: int| 0 <= a < ids.len() && ids[a] == next[k];
            position_of(ids, a);
            renumbered_block(p, a);
            assert(ir_flow::edge_ok(p.blocks, ir_vars::arities(b.terminator)[k]));
            assert(ir::block_at(p.blocks, ids[a]) is Some);
        }
    }
    local_blocks_are_valid(q);
}

/// Every name in `s` has a new name, and it is in `d`.
pub open spec fn maps_into(
    s: Set<Seq<char>>,
    env: Map<Seq<char>, Seq<char>>,
    d: Set<Seq<char>>,
) -> bool {
    forall|v: Seq<char>|
        #![trigger s.contains(v)]
        #![trigger env.contains_key(v)]
        s.contains(v) ==> env.contains_key(v) && d.contains(env[v])
}

/// An expression whose variables have new names in `d` is renamed, and then
/// reads only `d`.
proof fn renaming_stays_inside(e: ExprV, env: Map<Seq<char>, Seq<char>>, d: Set<Seq<char>>)
    requires
        maps_into(ir_vars::expr_vars(e), env, d),
    ensures
        ir_normalize::renamed_expr(e, env) is Some,
        ir_vars::expr_vars(ir_normalize::renamed_expr(e, env)->0).subset_of(d),
    decreases e,
{
    match e {
        ExprV::FieldOr { default, .. } => {
            assert(maps_into(ir_vars::expr_vars(*default), env, d)) by {
                assert(ir_vars::expr_vars(*default).subset_of(ir_vars::expr_vars(e)));
            }
            renaming_stays_inside(*default, env, d);
        },
        ExprV::StringOr { value, default } => {
            assert(maps_into(ir_vars::expr_vars(*value), env, d)) by {
                assert(ir_vars::expr_vars(*value).subset_of(ir_vars::expr_vars(e)));
            }
            renaming_stays_inside(*value, env, d);
            assert(maps_into(ir_vars::expr_vars(*default), env, d)) by {
                assert(ir_vars::expr_vars(*default).subset_of(ir_vars::expr_vars(e)));
            }
            renaming_stays_inside(*default, env, d);
        },
        ExprV::If { cond, then_value, else_value } => {
            assert(maps_into(ir_vars::expr_vars(*cond), env, d)) by {
                assert(ir_vars::expr_vars(*cond).subset_of(ir_vars::expr_vars(e)));
            }
            renaming_stays_inside(*cond, env, d);
            assert(maps_into(ir_vars::expr_vars(*then_value), env, d)) by {
                assert(ir_vars::expr_vars(*then_value).subset_of(ir_vars::expr_vars(e)));
            }
            renaming_stays_inside(*then_value, env, d);
            assert(maps_into(ir_vars::expr_vars(*else_value), env, d)) by {
                assert(ir_vars::expr_vars(*else_value).subset_of(ir_vars::expr_vars(e)));
            }
            renaming_stays_inside(*else_value, env, d);
        },
        ExprV::Index { index, .. } => {
            assert(maps_into(ir_vars::expr_vars(*index), env, d)) by {
                assert(ir_vars::expr_vars(*index).subset_of(ir_vars::expr_vars(e)));
            }
            renaming_stays_inside(*index, env, d);
        },
        ExprV::Eq { left, right } => {
            assert(maps_into(ir_vars::expr_vars(*left), env, d)) by {
                assert(ir_vars::expr_vars(*left).subset_of(ir_vars::expr_vars(e)));
            }
            renaming_stays_inside(*left, env, d);
            assert(maps_into(ir_vars::expr_vars(*right), env, d)) by {
                assert(ir_vars::expr_vars(*right).subset_of(ir_vars::expr_vars(e)));
            }
            renaming_stays_inside(*right, env, d);
        },
        ExprV::Lt { left, right } => {
            assert(maps_into(ir_vars::expr_vars(*left), env, d)) by {
                assert(ir_vars::expr_vars(*left).subset_of(ir_vars::expr_vars(e)));
            }
            renaming_stays_inside(*left, env, d);
            assert(maps_into(ir_vars::expr_vars(*right), env, d)) by {
                assert(ir_vars::expr_vars(*right).subset_of(ir_vars::expr_vars(e)));
            }
            renaming_stays_inside(*right, env, d);
        },
        ExprV::Or { left, right } => {
            assert(maps_into(ir_vars::expr_vars(*left), env, d)) by {
                assert(ir_vars::expr_vars(*left).subset_of(ir_vars::expr_vars(e)));
            }
            renaming_stays_inside(*left, env, d);
            assert(maps_into(ir_vars::expr_vars(*right), env, d)) by {
                assert(ir_vars::expr_vars(*right).subset_of(ir_vars::expr_vars(e)));
            }
            renaming_stays_inside(*right, env, d);
        },
        ExprV::And { left, right } => {
            assert(maps_into(ir_vars::expr_vars(*left), env, d)) by {
                assert(ir_vars::expr_vars(*left).subset_of(ir_vars::expr_vars(e)));
            }
            renaming_stays_inside(*left, env, d);
            assert(maps_into(ir_vars::expr_vars(*right), env, d)) by {
                assert(ir_vars::expr_vars(*right).subset_of(ir_vars::expr_vars(e)));
            }
            renaming_stays_inside(*right, env, d);
        },
        ExprV::Add { left, right } => {
            assert(maps_into(ir_vars::expr_vars(*left), env, d)) by {
                assert(ir_vars::expr_vars(*left).subset_of(ir_vars::expr_vars(e)));
            }
            renaming_stays_inside(*left, env, d);
            assert(maps_into(ir_vars::expr_vars(*right), env, d)) by {
                assert(ir_vars::expr_vars(*right).subset_of(ir_vars::expr_vars(e)));
            }
            renaming_stays_inside(*right, env, d);
        },
        ExprV::Sub { left, right } => {
            assert(maps_into(ir_vars::expr_vars(*left), env, d)) by {
                assert(ir_vars::expr_vars(*left).subset_of(ir_vars::expr_vars(e)));
            }
            renaming_stays_inside(*left, env, d);
            assert(maps_into(ir_vars::expr_vars(*right), env, d)) by {
                assert(ir_vars::expr_vars(*right).subset_of(ir_vars::expr_vars(e)));
            }
            renaming_stays_inside(*right, env, d);
        },
        ExprV::Push { value, .. } => {
            assert(maps_into(ir_vars::expr_vars(*value), env, d)) by {
                assert(ir_vars::expr_vars(*value).subset_of(ir_vars::expr_vars(e)));
            }
            renaming_stays_inside(*value, env, d);
        },
        ExprV::JsonParse { value } => {
            assert(maps_into(ir_vars::expr_vars(*value), env, d)) by {
                assert(ir_vars::expr_vars(*value).subset_of(ir_vars::expr_vars(e)));
            }
            renaming_stays_inside(*value, env, d);
        },
        ExprV::JsonParseOr { value, default } => {
            assert(maps_into(ir_vars::expr_vars(*value), env, d)) by {
                assert(ir_vars::expr_vars(*value).subset_of(ir_vars::expr_vars(e)));
            }
            renaming_stays_inside(*value, env, d);
            assert(maps_into(ir_vars::expr_vars(*default), env, d)) by {
                assert(ir_vars::expr_vars(*default).subset_of(ir_vars::expr_vars(e)));
            }
            renaming_stays_inside(*default, env, d);
        },
        ExprV::ToString { value } => {
            assert(maps_into(ir_vars::expr_vars(*value), env, d)) by {
                assert(ir_vars::expr_vars(*value).subset_of(ir_vars::expr_vars(e)));
            }
            renaming_stays_inside(*value, env, d);
        },
        ExprV::Array(x) => {
            renaming_exprs_stays_inside(x, env, d);
        },
        ExprV::Object(x) => {
            renaming_named_stays_inside(x, env, d);
        },
        ExprV::Concat { left, right } => {
            assert(maps_into(ir_vars::expr_vars(*left), env, d)) by {
                assert(ir_vars::expr_vars(*left).subset_of(ir_vars::expr_vars(e)));
            }
            renaming_stays_inside(*left, env, d);
            assert(maps_into(ir_vars::expr_vars(*right), env, d)) by {
                assert(ir_vars::expr_vars(*right).subset_of(ir_vars::expr_vars(e)));
            }
            renaming_stays_inside(*right, env, d);
        },
        ExprV::SelectToolResults { ids, .. } => {
            assert(maps_into(ir_vars::expr_vars(*ids), env, d)) by {
                assert(ir_vars::expr_vars(*ids).subset_of(ir_vars::expr_vars(e)));
            }
            renaming_stays_inside(*ids, env, d);
        },
        _ => {},
    }
}

proof fn renaming_exprs_stays_inside(
    items: Seq<ExprV>,
    env: Map<Seq<char>, Seq<char>>,
    d: Set<Seq<char>>,
)
    requires
        maps_into(ir_vars::exprs_vars(items), env, d),
    ensures
        ir_normalize::renamed_exprs(items, env) is Some,
        ir_normalize::renamed_exprs(items, env)->0.len() == items.len(),
        ir_vars::exprs_vars(ir_normalize::renamed_exprs(items, env)->0).subset_of(d),
    decreases items,
{
    if items.len() > 0 {
        renaming_exprs_stays_inside(items.drop_last(), env, d);
        renaming_stays_inside(items[items.len() - 1], env, d);
        let now = ir_normalize::renamed_exprs(items, env)->0;
        assert(now.drop_last() =~= ir_normalize::renamed_exprs(items.drop_last(), env)->0);
    }
}

proof fn renaming_named_stays_inside(
    items: Seq<(Seq<char>, ExprV)>,
    env: Map<Seq<char>, Seq<char>>,
    d: Set<Seq<char>>,
)
    requires
        maps_into(ir_vars::named_vars(items), env, d),
    ensures
        ir_normalize::renamed_named(items, env) is Some,
        ir_vars::named_vars(ir_normalize::renamed_named(items, env)->0).subset_of(d),
    decreases items,
{
    if items.len() > 0 {
        renaming_named_stays_inside(items.drop_last(), env, d);
        renaming_stays_inside(items[items.len() - 1].1, env, d);
        let now = ir_normalize::renamed_named(items, env)->0;
        assert(now.drop_last() =~= ir_normalize::renamed_named(items.drop_last(), env)->0);
    }
}

/// The same of an instruction, which keeps defining what it defined.
proof fn renaming_instr_stays_inside(
    i: InstrV,
    env: Map<Seq<char>, Seq<char>>,
    d: Set<Seq<char>>,
    v: Seq<char>,
)
    requires
        maps_into(ir_vars::uses(i), env, d),
    ensures
        ir_normalize::renamed_uses(i, env) is Some,
        ir_vars::uses(ir_normalize::renamed_uses(i, env)->0).subset_of(d),
        ir_vars::defines(ir_normalize::renamed_uses(i, env)->0) == ir_vars::defines(i),
        ir_vars::uses(ir_normalize::with_out(
            ir_normalize::renamed_uses(i, env)->0,
            v,
        )).subset_of(d),
        ir_vars::defines(i) is Some ==> ir_vars::defines(
            ir_normalize::with_out(ir_normalize::renamed_uses(i, env)->0, v),
        ) == Some(v),
{
    match i {
        InstrV::Let { expr, .. } => {
            renaming_stays_inside(expr, env, d);
        },
        InstrV::Infer { model, prompt, .. } => {
            renaming_stays_inside(model, env, d);
            assert(maps_into(ir_vars::prompt_vars(prompt), env, d));
            match prompt {
                PromptRefV::Var(x) => {
                    assert(ir_vars::prompt_vars(prompt).contains(x));
                },
                PromptRefV::PromptIrVar(x) => {
                    assert(ir_vars::prompt_vars(prompt).contains(x));
                },
                _ => {},
            }
        },
        InstrV::Eval { request, .. } => match request {
            EvalRequestV::Shell { command } => {
                renaming_stays_inside(command, env, d);
            },
            EvalRequestV::Argv { argv } => {
                renaming_exprs_stays_inside(argv, env, d);
            },
        },
        InstrV::Emit { event } => {
            renaming_stays_inside(event, env, d);
        },
        InstrV::Retrieve { query, .. } => {
            renaming_stays_inside(query, env, d);
        },
        InstrV::Store { sink, id, item, .. } => {
            renaming_stays_inside(sink, env, d);
            if let Some(e) = id {
                renaming_stays_inside(e, env, d);
            }
            renaming_stays_inside(item, env, d);
        },
        InstrV::Tool { arguments, .. } => {
            renaming_stays_inside(arguments, env, d);
        },
    }
}

proof fn renaming_arms_stays_inside(
    arms: Seq<MatchArmV>,
    env: Map<Seq<char>, Seq<char>>,
    d: Set<Seq<char>>,
)
    requires
        maps_into(ir_vars::arms_vars(arms), env, d),
    ensures
        ir_normalize::renamed_arms(arms, env) is Some,
        ({
            let now = ir_normalize::renamed_arms(arms, env)->0;
            &&& ir_vars::arms_vars(now).subset_of(d)
            &&& now.len() == arms.len()
            &&& forall|k: int|
                0 <= k < arms.len() ==> (#[trigger] now[k]).block == arms[k].block
                    && now[k].args.len() == arms[k].args.len()
        }),
    decreases arms.len(),
{
    if arms.len() > 0 {
        renaming_arms_stays_inside(arms.drop_last(), env, d);
        renaming_exprs_stays_inside(arms.last().args, env, d);
        let now = ir_normalize::renamed_arms(arms, env)->0;
        let before = ir_normalize::renamed_arms(arms.drop_last(), env)->0;
        assert(now.drop_last() =~= before);
        assert forall|k: int| 0 <= k < arms.len() implies (#[trigger] now[k]).block == arms[k].block
            && now[k].args.len() == arms[k].args.len() by {
            if k < arms.len() - 1 {
                assert(now[k] == before[k]);
                assert(arms.drop_last()[k] == arms[k]);
            }
        }
    }
}

/// The same of a terminator, whose edges keep their targets and the number of
/// their arguments.
proof fn renaming_terminator_stays_inside(
    t: TerminatorV,
    env: Map<Seq<char>, Seq<char>>,
    d: Set<Seq<char>>,
)
    requires
        maps_into(ir_vars::value_uses(t), env, d),
    ensures
        ir_normalize::renamed_terminator(t, env) is Some,
        ({
            let now = ir_normalize::renamed_terminator(t, env)->0;
            &&& ir_vars::value_uses(now).subset_of(d)
            &&& ir_vars::control_uses(now).subset_of(d)
            &&& ir_vars::arities(now) == ir_vars::arities(t)
        }),
{
    match t {
        TerminatorV::Goto { args, .. } => {
            renaming_exprs_stays_inside(args, env, d);
        },
        TerminatorV::If { cond, then_args, else_args, .. } => {
            renaming_stays_inside(cond, env, d);
            renaming_exprs_stays_inside(then_args, env, d);
            renaming_exprs_stays_inside(else_args, env, d);
        },
        TerminatorV::Match { value, arms, default_args, .. } => {
            renaming_stays_inside(value, env, d);
            renaming_arms_stays_inside(arms, env, d);
            renaming_exprs_stays_inside(default_args, env, d);
        },
        TerminatorV::Return { value } => {
            renaming_stays_inside(value, env, d);
        },
        TerminatorV::Par { .. } => {},
    }
    let now = ir_normalize::renamed_terminator(t, env)->0;
    assert(ir_vars::arities(now) =~= ir_vars::arities(t));
}

/// Naming the parameters: each gets a name among the new parameters.
proof fn naming_params(params: Seq<Seq<char>>, s: Naming, v: Seq<char>)
    ensures
        ir_normalize::name_params(params, s).next == s.next + params.len(),
        params.contains(v) ==> ir_normalize::name_params(params, s).env.contains_key(v) && Seq::new(
            params.len(),
            |i: int| ir_normalize::fresh((s.next + i) as nat),
        ).contains(ir_normalize::name_params(params, s).env[v]),
    decreases params.len(),
{
    if params.len() > 0 {
        let rest = params.drop_last();
        naming_params(rest, s, v);
        contains_last(params, v);
        let now = Seq::new(params.len(), |i: int| ir_normalize::fresh((s.next + i) as nat));
        let before = Seq::new(rest.len(), |i: int| ir_normalize::fresh((s.next + i) as nat));
        assert(now.drop_last() =~= before);
        contains_last(now, ir_normalize::name_params(params, s).env[v]);
    }
}

/// Naming the instructions of a local block succeeds; what the block has
/// defined so far has names that the new block has defined so far.
proof fn naming_instrs(b: BlockV, c: BlockV, s: Naming, n: int)
    requires
        0 <= n <= b.instructions.len(),
        ir_flow::local(b),
        c.params == Seq::new(b.params.len(), |i: int| ir_normalize::fresh((s.next + i) as nat)),
        ({
            let named = ir_normalize::name_instrs(
                b.instructions.take(n),
                ir_normalize::name_params(b.params, s),
            );
            named is Some ==> c.instructions.len() >= n && c.instructions.take(n) == (named->0).0
        }),
    ensures
        ({
            let named = ir_normalize::name_instrs(
                b.instructions.take(n),
                ir_normalize::name_params(b.params, s),
            );
            &&& named is Some
            &&& (named->0).0.len() == n
            &&& maps_into(ir_vars::defined_by(b, n), (named->0).1.env, ir_vars::defined_by(c, n))
            &&& ir_vars::free_before(c, n) == Set::<Seq<char>>::empty()
        }),
    decreases n,
{
    let s1 = ir_normalize::name_params(b.params, s);
    if n == 0 {
        assert(b.instructions.take(0) =~= Seq::empty());
        assert forall|v: Seq<char>| #[trigger]
            ir_vars::defined_by(b, 0).contains(v) implies s1.env.contains_key(v)
            && ir_vars::defined_by(c, 0).contains(s1.env[v]) by {
            naming_params(b.params, s, v);
        }
    } else {
        let now = b.instructions.take(n);
        let before = b.instructions.take(n - 1);
        assert(now.drop_last() =~= before);
        assert(now.last() == b.instructions[n - 1]);
        let i = b.instructions[n - 1];
        let prior = ir_normalize::name_instrs(before, s1);
        let named = ir_normalize::name_instrs(now, s1);
        // The shorter prefix of the new block, whatever comes of this instruction.
        let short = BlockV {
            params: c.params,
            instructions: if prior is Some {
                (prior->0).0
            } else {
                c.instructions
            },
            terminator: c.terminator,
        };
        if prior is Some {
            assert((prior->0).0.take(n - 1) =~= (prior->0).0) by {
                names_keep_length(before, s1);
            }
            names_keep_length(before, s1);
        }
        naming_instrs(b, short, s, n - 1);
        let env = (prior->0).1.env;
        let d = ir_vars::defined_by(short, n - 1);
        assert(maps_into(ir_vars::uses(i), env, d)) by {
            assert forall|v: Seq<char>| #[trigger] ir_vars::uses(i).contains(v) implies env.contains_key(v)
                && d.contains(env[v]) by {
                prefix_is_free(b, n, v);
                assert(!Set::<Seq<char>>::empty().contains(v));
                assert(ir_vars::defined_by(b, n - 1).contains(v));
            }
        }
        let name = ir_normalize::fresh((prior->0).1.next);
        renaming_instr_stays_inside(i, env, d, name);
        assert(named is Some);
        assert((named->0).0.drop_last() =~= (prior->0).0);
        assert(c.instructions.take(n - 1) =~= (prior->0).0);
        assert(c.instructions[n - 1] == (named->0).0[n - 1]);
        same_prefix(short, c, n - 1);
        let j = c.instructions[n - 1];
        assert(ir_vars::uses(j).subset_of(d));
        assert(ir_vars::free_before(c, n) =~= Set::<Seq<char>>::empty());
        assert forall|v: Seq<char>| #[trigger]
            ir_vars::defined_by(b, n).contains(v) implies (named->0).1.env.contains_key(v)
            && ir_vars::defined_by(c, n).contains((named->0).1.env[v]) by {
            if ir_vars::defines(i) != Some(v) {
                assert(ir_vars::defined_by(b, n - 1).contains(v));
            }
        }
    }
}

/// Naming keeps the number of instructions.
proof fn names_keep_length(list: Seq<InstrV>, s: Naming)
    ensures
        ir_normalize::name_instrs(list, s) is Some ==> (ir_normalize::name_instrs(
            list,
            s,
        )->0).0.len() == list.len(),
    decreases list.len(),
{
    if list.len() > 0 {
        names_keep_length(list.drop_last(), s);
    }
}

/// What an instruction reads and the block has not defined before it is free.
proof fn prefix_is_free(b: BlockV, n: int, v: Seq<char>)
    requires
        0 < n <= b.instructions.len(),
        ir_vars::uses(b.instructions[n - 1]).contains(v),
    ensures
        ir_vars::defined_by(b, n - 1).contains(v) || ir_vars::free_vars(b).contains(v),
{
    if !ir_vars::defined_by(b, n - 1).contains(v) {
        assert(ir_vars::free_before(b, n).contains(v));
        free_before_grows(b, n, b.instructions.len() as int, v);
    }
}

proof fn free_before_grows(b: BlockV, n: int, m: int, v: Seq<char>)
    requires
        n <= m,
        ir_vars::free_before(b, n).contains(v),
    ensures
        ir_vars::free_before(b, m).contains(v),
    decreases m - n,
{
    if n < m {
        free_before_grows(b, n, m - 1, v);
        if m <= 0 {
            assert(ir_vars::free_before(b, n) =~= Set::empty());
        }
    }
}

/// Blocks that agree on a prefix define and read alike on it.
proof fn same_prefix(a: BlockV, b: BlockV, n: int)
    requires
        a.params == b.params,
        0 <= n <= a.instructions.len(),
        n <= b.instructions.len(),
        a.instructions.take(n) == b.instructions.take(n),
    ensures
        ir_vars::defined_by(a, n) == ir_vars::defined_by(b, n),
        ir_vars::free_before(a, n) == ir_vars::free_before(b, n),
    decreases n,
{
    if n > 0 {
        assert(a.instructions.take(n)[n - 1] == a.instructions[n - 1]);
        assert(b.instructions.take(n)[n - 1] == b.instructions[n - 1]);
        assert(a.instructions.take(n - 1) =~= a.instructions.take(n).take(n - 1));
        assert(b.instructions.take(n - 1) =~= b.instructions.take(n).take(n - 1));
        same_prefix(a, b, n - 1);
    }
}

/// Naming a local block succeeds and gives a local block with the same edges
/// and as many parameters.
proof fn naming_block(b: BlockV, s: Naming)
    requires
        ir_flow::local(b),
    ensures
        ir_normalize::name_block(b, s) is Some,
        ({
            let c = (ir_normalize::name_block(b, s)->0).0;
            &&& ir_flow::local(c)
            &&& c.params.len() == b.params.len()
            &&& ir_vars::arities(c.terminator) == ir_vars::arities(b.terminator)
        }),
{
    let n = b.instructions.len() as int;
    let s1 = ir_normalize::name_params(b.params, s);
    let named = ir_normalize::name_instrs(b.instructions, s1);
    let params = Seq::new(b.params.len(), |i: int| ir_normalize::fresh((s.next + i) as nat));
    assert(b.instructions.take(n) =~= b.instructions);
    names_keep_length(b.instructions, s1);
    let draft = BlockV {
        params,
        instructions: if named is Some {
            (named->0).0
        } else {
            b.instructions
        },
        terminator: b.terminator,
    };
    assert(draft.instructions.take(n) =~= draft.instructions);
    naming_instrs(b, draft, s, n);
    let env = (named->0).1.env;
    let d = ir_vars::all_defined(draft);
    assert(maps_into(ir_vars::value_uses(b.terminator), env, d)) by {
        assert forall|v: Seq<char>| #[trigger]
            ir_vars::value_uses(b.terminator).contains(v) implies env.contains_key(v) && d.contains(
            env[v],
        ) by {
            if !ir_vars::all_defined(b).contains(v) {
                assert(ir_vars::free_vars(b).contains(v));
                assert(!Set::<Seq<char>>::empty().contains(v));
            }
            assert(ir_vars::defined_by(b, n).contains(v));
        }
    }
    renaming_terminator_stays_inside(b.terminator, env, d);
    let c = (ir_normalize::name_block(b, s)->0).0;
    assert(c.instructions == draft.instructions);
    same_prefix(draft, c, n);
    assert(ir_vars::free_vars(c) =~= Set::<Seq<char>>::empty());
}

/// Naming local blocks succeeds; labels, edges and parameter counts stay.
proof fn naming_blocks(blocks: Blocks)
    requires
        forall|i: int| 0 <= i < blocks.len() ==> ir_flow::local((#[trigger] blocks[i]).1),
    ensures
        ir_normalize::name_blocks(blocks) is Some,
        ({
            let now = (ir_normalize::name_blocks(blocks)->0).0;
            &&& now.len() == blocks.len()
            &&& forall|i: int|
                0 <= i < blocks.len() ==> {
                    &&& (#[trigger] now[i]).0 == blocks[i].0
                    &&& ir_flow::local(now[i].1)
                    &&& now[i].1.params.len() == blocks[i].1.params.len()
                    &&& ir_vars::arities(now[i].1.terminator) == ir_vars::arities(
                        blocks[i].1.terminator,
                    )
                }
        }),
    decreases blocks.len(),
{
    if blocks.len() > 0 {
        let rest = blocks.drop_last();
        assert(forall|i: int| 0 <= i < rest.len() ==> rest[i] == blocks[i]);
        naming_blocks(rest);
        let (before, s) = ir_normalize::name_blocks(rest)->0;
        assert(blocks.last() == blocks[blocks.len() - 1]);
        naming_block(blocks.last().1, s);
        let now = (ir_normalize::name_blocks(blocks)->0).0;
        assert forall|i: int| 0 <= i < blocks.len() implies {
            &&& (#[trigger] now[i]).0 == blocks[i].0
            &&& ir_flow::local(now[i].1)
            &&& now[i].1.params.len() == blocks[i].1.params.len()
            &&& ir_vars::arities(now[i].1.terminator) == ir_vars::arities(blocks[i].1.terminator)
        } by {
            if i < rest.len() {
                assert(now[i] == before[i]);
            }
        }
    }
}

/// Blocks under the same labels with as many parameters are found alike.
proof fn same_labels_found(a: Blocks, b: Blocks, id: u32)
    requires
        a.len() == b.len(),
        forall|i: int|
            0 <= i < a.len() ==> (#[trigger] b[i]).0 == a[i].0 && b[i].1.params.len()
                == a[i].1.params.len(),
    ensures
        ir::block_at(a, id) is Some <==> ir::block_at(b, id) is Some,
        ir::block_at(a, id) is Some ==> ir::block_at(a, id)->0.params.len() == ir::block_at(
            b,
            id,
        )->0.params.len(),
    decreases a.len(),
{
    if a.len() > 0 {
        assert(b[0].0 == a[0].0);
        let ra = a.drop_first();
        let rb = b.drop_first();
        assert forall|i: int| 0 <= i < ra.len() implies (#[trigger] rb[i]).0 == ra[i].0
            && rb[i].1.params.len() == ra[i].1.params.len() by {
            assert(rb[i] == b[i + 1]);
        }
        same_labels_found(ra, rb, id);
    }
}

/// Canonical names keep strict SSA form.
pub proof fn naming_keeps_strict(p: ProgramV)
    requires
        ir_flow::strict_ssa(p),
    ensures
        ir_normalize::name_blocks(p.blocks) is Some,
        ir_flow::strict_ssa(
            ProgramV {
                id: Seq::empty(),
                entry: p.entry,
                blocks: (ir_normalize::name_blocks(p.blocks)->0).0,
            },
        ),
{
    naming_blocks(p.blocks);
    let now = (ir_normalize::name_blocks(p.blocks)->0).0;
    let q = ProgramV { id: Seq::empty(), entry: p.entry, blocks: now };
    same_labels_found(p.blocks, now, p.entry);
    assert forall|i: int| 0 <= i < now.len() implies ir_flow::edges_ok(
        now,
        (#[trigger] now[i]).1,
    ) by {
        assert(ir_flow::edges_ok(p.blocks, p.blocks[i].1));
        assert forall|k: int| 0 <= k < ir_vars::arities(now[i].1.terminator).len() implies ir_flow::edge_ok(
            now,
            #[trigger] ir_vars::arities(now[i].1.terminator)[k],
        ) by {
            let e = ir_vars::arities(p.blocks[i].1.terminator)[k];
            assert(ir_flow::edge_ok(p.blocks, e));
            same_labels_found(p.blocks, now, e.0);
        }
    }
    local_blocks_are_valid(q);
}

/// A valid program without parallel branches and repeated parameters has a
/// canonical form, and that form is in strict SSA form: normalization
/// succeeds on it.
pub proof fn normal_form_is_strict(p: ProgramV)
    requires
        ir_flow::valid(p),
        sequential(p),
    ensures
        ir_normalize::normal_form(p) is Some,
        ir_flow::strict_ssa(ir_normalize::normal_form(p)->0),
{
    ssa_form_is_strict(p);
    let ssa = ir_normalize::ssa_program(p);
    renumbering_keeps_strict(ssa);
    naming_keeps_strict(ir_normalize::renumbered(ssa));
}

} // verus!
