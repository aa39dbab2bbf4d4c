//! Every agent loop is a valid program: its blocks are all there, they are
//! entered with the right number of arguments, and no variable is read before
//! it is defined, whatever tools the loop has.
use crate::ir;
use crate::ir::{BlockV, Blocks, ExprV};
use crate::ir_agent;
use crate::ir_agent::LoopShapeV;
use crate::ir_flow;
use crate::ir_vars;
use crate::normal_laws;
use vstd::prelude::*;

verus! {

/// Whether a loop has a block under a label.
pub open spec fn in_loop(c: LoopShapeV, label: u32) -> bool {
    label < 18 || (c.memory_tools && label < 24) || (24 <= label < 24 + 2 * c.native_tools.len())
}

proof fn found_where_it_stands(blocks: Blocks, i: int)
    requires
        0 <= i < blocks.len(),
        forall|j: int, k: int|
            0 <= j < k < blocks.len() ==> (#[trigger] blocks[j]).0 != (#[trigger] blocks[k]).0,
    ensures
        ir::block_at(blocks, blocks[i].0) == Some(blocks[i].1),
    decreases blocks.len(),
{
    if i > 0 {
        let rest = blocks.drop_first();
        assert(blocks[0].0 != blocks[i].0);
        assert forall|j: int, k: int| 0 <= j < k < rest.len() implies (#[trigger] rest[j]).0 != (
        #[trigger] rest[k]).0 by {
            assert(blocks[j + 1].0 != blocks[k + 1].0);
        }
        assert(rest[i - 1] == blocks[i]);
        found_where_it_stands(rest, i - 1);
    }
}

/// The block under each label of a loop.
pub proof fn loop_block_found(c: LoopShapeV, label: u32)
    requires
        ir_agent::fits(c),
        in_loop(c, label),
    ensures
        ir::block_at(ir_agent::loop_blocks(c), label) == Some(ir_agent::block_under(c, label)),
{
    let blocks = ir_agent::loop_blocks(c);
    let i: int = if c.memory_tools || label < 18 {
        label as int
    } else {
        label - 6
    };
    assert(blocks[i].0 == label);
    found_where_it_stands(blocks, i);
}

/// What a block under a label needs from before at most.
pub open spec fn at_hand(label: u32) -> Set<Seq<char>> {
    if label == 0 {
        Set::empty()
    } else if label == 1 {
        Set::empty().insert("response"@)
    } else if label == 2 {
        Set::empty().insert("history"@).insert("content_empty"@).insert("content"@)
            .insert("response"@).insert("tool_calls"@).insert("turns_left"@)
    } else if label == 3 {
        Set::empty()
    } else if label == 4 {
        Set::empty().insert("history"@).insert("tool_calls"@).insert("i"@).insert("turns_left"@)
    } else if label == 5 {
        Set::empty().insert("history"@).insert("turns_left"@)
    } else if label == 6 {
        Set::empty().insert("history"@).insert("tool_calls"@).insert("i"@).insert("turns_left"@)
            .insert("call"@).insert("function_name"@).insert("arguments"@)
    } else if label == 7 {
        Set::empty().insert("history"@).insert("tool_calls"@).insert("i"@).insert("turns_left"@)
            .insert("call"@).insert("function_name"@).insert("arguments"@)
    } else if label == 8 {
        Set::empty().insert("history"@).insert("tool_calls"@).insert("i"@).insert("turns_left"@)
            .insert("call"@).insert("function_name"@).insert("arguments"@)
    } else if label == 9 {
        Set::empty().insert("call"@).insert("history"@).insert("tool_calls"@).insert("i"@)
            .insert("turns_left"@)
    } else if label == 10 {
        Set::empty().insert("history"@).insert("tool_calls"@).insert("i"@).insert("turns_left"@)
            .insert("call"@).insert("function_name"@).insert("arguments"@)
    } else if label == 11 {
        Set::empty().insert("history"@).insert("tool_calls"@).insert("i"@).insert("turns_left"@)
            .insert("call"@).insert("function_name"@).insert("arguments"@)
    } else if label == 12 {
        Set::empty().insert("history"@).insert("tool_calls"@).insert("i"@).insert("turns_left"@)
            .insert("call"@).insert("function_name"@).insert("arguments"@).insert("command"@)
    } else if label == 13 {
        Set::empty().insert("history"@).insert("tool_calls"@).insert("i"@).insert("turns_left"@)
            .insert("call"@).insert("function_name"@).insert("arguments"@).insert("infer_model"@)
            .insert("infer_prompt_text"@).insert("infer_context"@)
    } else if label == 14 {
        Set::empty().insert("no_tool_calls"@).insert("history"@).insert("content_empty"@)
            .insert("content"@).insert("response"@).insert("tool_calls"@).insert("turns_left"@)
    } else if label == 15 {
        Set::empty().insert("content_empty"@).insert("history"@).insert("content"@)
            .insert("turns_left"@)
    } else if label == 16 {
        Set::empty().insert("can_stop"@).insert("response"@)
    } else if label == 17 {
        Set::empty().insert("response"@)
    } else if label == 18 {
        Set::empty().insert("history"@).insert("tool_calls"@).insert("i"@).insert("turns_left"@)
            .insert("call"@).insert("function_name"@).insert("arguments"@)
    } else if label == 19 {
        Set::empty().insert("history"@).insert("tool_calls"@).insert("i"@).insert("turns_left"@)
            .insert("call"@).insert("function_name"@).insert("arguments"@)
    } else if label == 20 {
        Set::empty().insert("history"@).insert("tool_calls"@).insert("i"@).insert("turns_left"@)
            .insert("call"@).insert("function_name"@).insert("arguments"@)
    } else if label == 21 {
        Set::empty().insert("history"@).insert("tool_calls"@).insert("i"@).insert("turns_left"@)
            .insert("call"@).insert("function_name"@).insert("arguments"@)
    } else if label == 22 {
        Set::empty().insert("history"@).insert("tool_calls"@).insert("i"@).insert("turns_left"@)
            .insert("call"@).insert("function_name"@).insert("arguments"@).insert("memory_name"@)
            .insert("memory_content"@)
    } else if label == 23 {
        Set::empty().insert("history"@).insert("tool_calls"@).insert("i"@).insert("turns_left"@)
            .insert("call"@).insert("function_name"@).insert("arguments"@).insert("recall_query"@)
    } else {
        Set::empty().insert("history"@).insert("tool_calls"@).insert("i"@).insert("turns_left"@)
            .insert("call"@).insert("function_name"@).insert("arguments"@)
    }
}

/// Whether everything that a block under a label needs is in a set.
pub open spec fn supplies(have: Set<Seq<char>>, label: u32) -> bool {
    at_hand(label).subset_of(have)
}

/// A block reads nothing that is not at hand, and everything that its
/// successors need is at hand or defined by it.
pub open spec fn covered(b: BlockV, have: Set<Seq<char>>) -> bool {
    &&& ir_vars::free_vars(b).subset_of(have)
    &&& forall|k: int|
        0 <= k < ir_vars::successors(b.terminator).len() ==> supplies(
            have.union(ir_vars::all_defined(b)),
            #[trigger] ir_vars::successors(b.terminator)[k],
        )
}

broadcast proof fn named_vars_push(f: Seq<(Seq<char>, ExprV)>, x: (Seq<char>, ExprV))
    ensures
        #[trigger] ir_vars::named_vars(f.push(x)) == ir_vars::named_vars(f).union(
            ir_vars::expr_vars(x.1),
        ),
{
    assert(f.push(x).drop_last() =~= f);
}

broadcast proof fn exprs_vars_push(f: Seq<ExprV>, x: ExprV)
    ensures
        #[trigger] ir_vars::exprs_vars(f.push(x)) == ir_vars::exprs_vars(f).union(
            ir_vars::expr_vars(x),
        ),
{
    assert(f.push(x).drop_last() =~= f);
}

broadcast proof fn to_set_push(f: Seq<Seq<char>>, x: Seq<char>)
    ensures
        #[trigger] f.push(x).to_set() == f.to_set().insert(x),
{
    let g = f.push(x);
    assert forall|v: Seq<char>| #[trigger]
        g.to_set().contains(v) == f.to_set().insert(x).contains(v) by {
        if f.contains(v) {
            let i = choose|i: int| 0 <= i < f.len() && f[i] == v;
            assert(g[i] == v);
        }
        if v == x {
            assert(g[f.len() as int] == v);
        }
    }
    assert(g.to_set() =~= f.to_set().insert(x));
}

proof fn nothing_is_missing(c: LoopShapeV, label: u32, v: Seq<char>, n: nat)
    requires
        ir_agent::fits(c),
        forall|l: u32|
            in_loop(c, l) ==> covered(#[trigger] ir_agent::block_under(c, l), at_hand(l)),
        in_loop(c, label),
        ir_flow::needs(ir_agent::loop_blocks(c), label, v, n),
        forall|l: u32| in_loop(c, l) ==> #[trigger] closed_under(c, l),
    ensures
        at_hand(label).contains(v),
    decreases n,
{
    let blocks = ir_agent::loop_blocks(c);
    let b = ir_agent::block_under(c, label);
    loop_block_found(c, label);
    assert(covered(b, at_hand(label)));
    if !ir_vars::free_vars(b).contains(v) {
        let k = choose|k: int|
            0 <= k < ir_flow::next_labels(blocks, label).len() && ir_flow::needs(
                blocks,
                #[trigger] ir_flow::next_labels(blocks, label)[k],
                v,
                (n - 1) as nat,
            );
        let next = ir_vars::successors(b.terminator)[k];
        assert(closed_under(c, label));
        assert(in_loop(c, next));
        nothing_is_missing(c, next, v, (n - 1) as nat);
        assert(supplies(at_hand(label).union(ir_vars::all_defined(b)), next));
    }
}

/// The successors of a block are blocks of the loop, and take as many
/// arguments as they are given.
pub open spec fn closed_under(c: LoopShapeV, label: u32) -> bool {
    let t = ir_agent::block_under(c, label).terminator;
    &&& forall|k: int|
        0 <= k < ir_vars::successors(t).len() ==> in_loop(c, #[trigger] ir_vars::successors(t)[k])
    &&& forall|k: int|
        0 <= k < ir_vars::arities(t).len() ==> ir_agent::block_under(
            c,
            (#[trigger] ir_vars::arities(t)[k]).0,
        ).params.len() == ir_vars::arities(t)[k].1
    &&& ir_agent::block_under(c, label).params.no_duplicates()
    &&& !(t is Par)
}

proof fn entry_block_is_covered(model: Seq<char>)
    ensures
        covered(ir_agent::entry_block(model), at_hand(0)),
{
    broadcast use {named_vars_push, exprs_vars_push, to_set_push};

    let b = ir_agent::entry_block(model);
    reveal_with_fuel(ir_vars::expr_vars, 6);
    reveal_with_fuel(ir_vars::defined_by, 15);
    reveal_with_fuel(ir_vars::free_before, 15);
    assert(b.instructions.len() == 13);
    assert(ir_vars::free_vars(b).subset_of(at_hand(0)));
}

proof fn done_block_is_covered()
    ensures
        covered(ir_agent::done_block(), at_hand(1)),
{
    broadcast use {named_vars_push, exprs_vars_push, to_set_push};

    let b = ir_agent::done_block();
    reveal_with_fuel(ir_vars::expr_vars, 6);
    reveal_with_fuel(ir_vars::defined_by, 2);
    reveal_with_fuel(ir_vars::free_before, 2);
    assert(b.instructions.len() == 0);
    assert(ir_vars::free_vars(b).subset_of(at_hand(1)));
}

proof fn prepare_block_is_covered()
    ensures
        covered(ir_agent::prepare_block(), at_hand(2)),
{
    broadcast use {named_vars_push, exprs_vars_push, to_set_push};

    let b = ir_agent::prepare_block();
    reveal_with_fuel(ir_vars::expr_vars, 6);
    reveal_with_fuel(ir_vars::defined_by, 3);
    reveal_with_fuel(ir_vars::free_before, 3);
    assert(b.instructions.len() == 1);
    let message = (b.instructions[0]->Let_expr)->Push_value;
    let fields = message->Object_0;
    assert(ir_vars::expr_vars(fields[0].1).subset_of(at_hand(2)));
    assert(ir_vars::expr_vars(fields[2].1).subset_of(at_hand(2)));
    assert(ir_vars::named_vars(fields).subset_of(at_hand(2)));
    assert(ir_vars::expr_vars(*message).subset_of(at_hand(2)));
    assert(ir_vars::uses(b.instructions[0]).subset_of(at_hand(2)));
    assert(ir_vars::free_vars(b).subset_of(at_hand(2)));
}

proof fn loop_block_is_covered()
    ensures
        covered(ir_agent::loop_block(), at_hand(3)),
{
    broadcast use {named_vars_push, exprs_vars_push, to_set_push};

    let b = ir_agent::loop_block();
    reveal_with_fuel(ir_vars::expr_vars, 6);
    reveal_with_fuel(ir_vars::defined_by, 3);
    reveal_with_fuel(ir_vars::free_before, 3);
    assert(b.instructions.len() == 1);
    assert(ir_vars::free_vars(b).subset_of(at_hand(3)));
}

proof fn body_block_is_covered()
    ensures
        covered(ir_agent::body_block(), at_hand(4)),
{
    broadcast use {named_vars_push, exprs_vars_push, to_set_push};

    let b = ir_agent::body_block();
    reveal_with_fuel(ir_vars::expr_vars, 6);
    reveal_with_fuel(ir_vars::defined_by, 6);
    reveal_with_fuel(ir_vars::free_before, 6);
    assert(b.instructions.len() == 4);
    assert(ir_vars::free_vars(b).subset_of(at_hand(4)));
}

proof fn next_block_is_covered()
    ensures
        covered(ir_agent::next_block(), at_hand(5)),
{
    broadcast use {named_vars_push, exprs_vars_push, to_set_push};

    let b = ir_agent::next_block();
    reveal_with_fuel(ir_vars::expr_vars, 6);
    reveal_with_fuel(ir_vars::defined_by, 3);
    reveal_with_fuel(ir_vars::free_before, 3);
    assert(b.instructions.len() == 1);
    assert(ir_vars::free_vars(b).subset_of(at_hand(5)));
}

proof fn shell_dispatch_block_is_covered(other: u32)
    requires
        supplies(at_hand(24), other),
    ensures
        covered(ir_agent::shell_dispatch_block(other), at_hand(6)),
{
    broadcast use {named_vars_push, exprs_vars_push, to_set_push};

    let b = ir_agent::shell_dispatch_block(other);
    reveal_with_fuel(ir_vars::expr_vars, 6);
    reveal_with_fuel(ir_vars::defined_by, 3);
    reveal_with_fuel(ir_vars::free_before, 3);
    assert(b.instructions.len() == 1);
    assert(ir_vars::free_vars(b).subset_of(at_hand(6)));
}

proof fn shell_block_is_covered()
    ensures
        covered(ir_agent::shell_block(), at_hand(7)),
{
    broadcast use {named_vars_push, exprs_vars_push, to_set_push};

    let b = ir_agent::shell_block();
    reveal_with_fuel(ir_vars::expr_vars, 6);
    reveal_with_fuel(ir_vars::defined_by, 4);
    reveal_with_fuel(ir_vars::free_before, 4);
    assert(b.instructions.len() == 2);
    assert(ir_vars::free_vars(b).subset_of(at_hand(7)));
}

proof fn infer_block_is_covered()
    ensures
        covered(ir_agent::infer_block(), at_hand(8)),
{
    broadcast use {named_vars_push, exprs_vars_push, to_set_push};

    let b = ir_agent::infer_block();
    reveal_with_fuel(ir_vars::expr_vars, 6);
    reveal_with_fuel(ir_vars::defined_by, 13);
    reveal_with_fuel(ir_vars::free_before, 13);
    assert(b.instructions.len() == 11);
    let refs = ir_agent::v_references();
    assert(ir_vars::expr_vars(refs) =~= set!["history"@, "arguments"@]);
    assert(ir_vars::uses(b.instructions[5]).subset_of(at_hand(8)));
    let fields = ir_agent::v_unresolved()->Object_0;
    assert(ir_vars::named_vars(fields) =~= set!["missing_refs"@]);
    assert(ir_vars::expr_vars(ir_agent::v_unresolved()) =~= set!["missing_refs"@]);
    assert(ir_vars::uses(b.instructions[10]) =~= set![
        "invalid_infer_arguments"@,
        "missing_refs"@,
    ]);
    assert(ir_vars::free_vars(b).subset_of(at_hand(8)));
}

proof fn append_block_is_covered()
    ensures
        covered(ir_agent::append_block(), at_hand(9)),
{
    broadcast use {named_vars_push, exprs_vars_push, to_set_push};

    let b = ir_agent::append_block();
    reveal_with_fuel(ir_vars::expr_vars, 6);
    reveal_with_fuel(ir_vars::defined_by, 5);
    reveal_with_fuel(ir_vars::free_before, 5);
    assert(b.instructions.len() == 3);
    assert(ir_vars::free_vars(b).subset_of(at_hand(9)));
}

proof fn unknown_block_is_covered(tools: Seq<char>)
    ensures
        covered(ir_agent::unknown_block(tools), at_hand(10)),
{
    broadcast use {named_vars_push, exprs_vars_push, to_set_push};

    let b = ir_agent::unknown_block(tools);
    reveal_with_fuel(ir_vars::expr_vars, 6);
    reveal_with_fuel(ir_vars::defined_by, 3);
    reveal_with_fuel(ir_vars::free_before, 3);
    assert(b.instructions.len() == 1);
    assert(ir_vars::free_vars(b).subset_of(at_hand(10)));
}

proof fn invalid_block_is_covered()
    ensures
        covered(ir_agent::invalid_block(), at_hand(11)),
{
    broadcast use {named_vars_push, exprs_vars_push, to_set_push};

    let b = ir_agent::invalid_block();
    reveal_with_fuel(ir_vars::expr_vars, 6);
    reveal_with_fuel(ir_vars::defined_by, 3);
    reveal_with_fuel(ir_vars::free_before, 3);
    assert(b.instructions.len() == 1);
    assert(ir_vars::free_vars(b).subset_of(at_hand(11)));
}

proof fn shell_eval_block_is_covered(gated: bool)
    ensures
        covered(ir_agent::shell_eval_block(gated), at_hand(12)),
{
    broadcast use {named_vars_push, exprs_vars_push, to_set_push};

    let b = ir_agent::shell_eval_block(gated);
    reveal_with_fuel(ir_vars::expr_vars, 6);
    reveal_with_fuel(ir_vars::defined_by, 4);
    reveal_with_fuel(ir_vars::free_before, 4);
    assert(b.instructions.len() == 2);
    assert(ir_vars::free_vars(b).subset_of(at_hand(12)));
}

proof fn infer_eval_block_is_covered()
    ensures
        covered(ir_agent::infer_eval_block(), at_hand(13)),
{
    broadcast use {named_vars_push, exprs_vars_push, to_set_push};

    let b = ir_agent::infer_eval_block();
    reveal_with_fuel(ir_vars::expr_vars, 6);
    reveal_with_fuel(ir_vars::defined_by, 7);
    reveal_with_fuel(ir_vars::free_before, 7);
    assert(b.instructions.len() == 5);
    let prompt = (b.instructions[0]->Let_expr)->Concat_right;
    assert(ir_vars::exprs_vars(prompt->Array_0) =~= set!["infer_prompt_text"@]);
    assert(ir_vars::expr_vars(*prompt) =~= set!["infer_prompt_text"@]);
    assert(ir_vars::uses(b.instructions[0]) =~= set!["infer_context"@, "infer_prompt_text"@]);
    assert(ir_vars::free_vars(b).subset_of(at_hand(13)));
}

proof fn route_block_is_covered()
    ensures
        covered(ir_agent::route_block(), at_hand(14)),
{
    broadcast use {named_vars_push, exprs_vars_push, to_set_push};

    let b = ir_agent::route_block();
    reveal_with_fuel(ir_vars::expr_vars, 6);
    reveal_with_fuel(ir_vars::defined_by, 2);
    reveal_with_fuel(ir_vars::free_before, 2);
    assert(b.instructions.len() == 0);
    assert(ir_vars::free_vars(b).subset_of(at_hand(14)));
}

proof fn nudge_block_is_covered()
    ensures
        covered(ir_agent::nudge_block(), at_hand(15)),
{
    broadcast use {named_vars_push, exprs_vars_push, to_set_push};

    let b = ir_agent::nudge_block();
    reveal_with_fuel(ir_vars::expr_vars, 6);
    reveal_with_fuel(ir_vars::defined_by, 5);
    reveal_with_fuel(ir_vars::free_before, 5);
    assert(b.instructions.len() == 3);
    assert(ir_vars::free_vars(b).subset_of(at_hand(15)));
}

proof fn end_block_is_covered()
    ensures
        covered(ir_agent::end_block(), at_hand(16)),
{
    broadcast use {named_vars_push, exprs_vars_push, to_set_push};

    let b = ir_agent::end_block();
    reveal_with_fuel(ir_vars::expr_vars, 6);
    reveal_with_fuel(ir_vars::defined_by, 2);
    reveal_with_fuel(ir_vars::free_before, 2);
    assert(b.instructions.len() == 0);
    assert(ir_vars::free_vars(b).subset_of(at_hand(16)));
}

proof fn budget_block_is_covered()
    ensures
        covered(ir_agent::budget_block(), at_hand(17)),
{
    broadcast use {named_vars_push, exprs_vars_push, to_set_push};

    let b = ir_agent::budget_block();
    reveal_with_fuel(ir_vars::expr_vars, 6);
    reveal_with_fuel(ir_vars::defined_by, 3);
    reveal_with_fuel(ir_vars::free_before, 3);
    assert(b.instructions.len() == 1);
    let fields = (b.instructions[0]->Let_expr)->Object_0;
    assert(ir_vars::expr_vars(fields[3].1).subset_of(at_hand(17)));
    assert(ir_vars::named_vars(fields).subset_of(at_hand(17)));
    assert(ir_vars::uses(b.instructions[0]).subset_of(at_hand(17)));
    assert(ir_vars::free_vars(b).subset_of(at_hand(17)));
}

proof fn remember_dispatch_block_is_covered()
    ensures
        covered(ir_agent::remember_dispatch_block(), at_hand(18)),
{
    broadcast use {named_vars_push, exprs_vars_push, to_set_push};

    let b = ir_agent::remember_dispatch_block();
    reveal_with_fuel(ir_vars::expr_vars, 6);
    reveal_with_fuel(ir_vars::defined_by, 3);
    reveal_with_fuel(ir_vars::free_before, 3);
    assert(b.instructions.len() == 1);
    assert(ir_vars::free_vars(b).subset_of(at_hand(18)));
}

proof fn remember_block_is_covered()
    ensures
        covered(ir_agent::remember_block(), at_hand(19)),
{
    broadcast use {named_vars_push, exprs_vars_push, to_set_push};

    let b = ir_agent::remember_block();
    reveal_with_fuel(ir_vars::expr_vars, 6);
    reveal_with_fuel(ir_vars::defined_by, 5);
    reveal_with_fuel(ir_vars::free_before, 5);
    assert(b.instructions.len() == 3);
    assert(ir_vars::free_vars(b).subset_of(at_hand(19)));
}

proof fn recall_dispatch_block_is_covered(other: u32)
    requires
        supplies(at_hand(24), other),
    ensures
        covered(ir_agent::recall_dispatch_block(other), at_hand(20)),
{
    broadcast use {named_vars_push, exprs_vars_push, to_set_push};

    let b = ir_agent::recall_dispatch_block(other);
    reveal_with_fuel(ir_vars::expr_vars, 6);
    reveal_with_fuel(ir_vars::defined_by, 3);
    reveal_with_fuel(ir_vars::free_before, 3);
    assert(b.instructions.len() == 1);
    assert(ir_vars::free_vars(b).subset_of(at_hand(20)));
}

proof fn recall_block_is_covered()
    ensures
        covered(ir_agent::recall_block(), at_hand(21)),
{
    broadcast use {named_vars_push, exprs_vars_push, to_set_push};

    let b = ir_agent::recall_block();
    reveal_with_fuel(ir_vars::expr_vars, 6);
    reveal_with_fuel(ir_vars::defined_by, 4);
    reveal_with_fuel(ir_vars::free_before, 4);
    assert(b.instructions.len() == 2);
    assert(ir_vars::free_vars(b).subset_of(at_hand(21)));
}

proof fn store_block_is_covered()
    ensures
        covered(ir_agent::store_block(), at_hand(22)),
{
    broadcast use {named_vars_push, exprs_vars_push, to_set_push};

    let b = ir_agent::store_block();
    reveal_with_fuel(ir_vars::expr_vars, 6);
    reveal_with_fuel(ir_vars::defined_by, 5);
    reveal_with_fuel(ir_vars::free_before, 5);
    assert(b.instructions.len() == 3);
    assert(ir_vars::free_vars(b).subset_of(at_hand(22)));
}

proof fn retrieve_block_is_covered()
    ensures
        covered(ir_agent::retrieve_block(), at_hand(23)),
{
    broadcast use {named_vars_push, exprs_vars_push, to_set_push};

    let b = ir_agent::retrieve_block();
    reveal_with_fuel(ir_vars::expr_vars, 6);
    reveal_with_fuel(ir_vars::defined_by, 4);
    reveal_with_fuel(ir_vars::free_before, 4);
    assert(b.instructions.len() == 2);
    assert(ir_vars::free_vars(b).subset_of(at_hand(23)));
}

proof fn native_dispatch_block_is_covered(tool: Seq<char>, body: u32, other: u32)
    requires
        supplies(at_hand(24), other),
        supplies(at_hand(24), body),
    ensures
        covered(ir_agent::native_dispatch_block(tool, body, other), at_hand(24)),
{
    broadcast use {named_vars_push, exprs_vars_push, to_set_push};

    let b = ir_agent::native_dispatch_block(tool, body, other);
    reveal_with_fuel(ir_vars::expr_vars, 6);
    reveal_with_fuel(ir_vars::defined_by, 3);
    reveal_with_fuel(ir_vars::free_before, 3);
    assert(b.instructions.len() == 1);
    assert(ir_vars::free_vars(b).subset_of(at_hand(24)));
}

proof fn native_block_is_covered(tool: Seq<char>)
    ensures
        covered(ir_agent::native_block(tool), at_hand(24)),
{
    broadcast use {named_vars_push, exprs_vars_push, to_set_push};

    let b = ir_agent::native_block(tool);
    reveal_with_fuel(ir_vars::expr_vars, 6);
    reveal_with_fuel(ir_vars::defined_by, 4);
    reveal_with_fuel(ir_vars::free_before, 4);
    assert(b.instructions.len() == 2);
    assert(ir_vars::free_vars(b).subset_of(at_hand(24)));
}

proof fn loop_is_covered(c: LoopShapeV, label: u32)
    requires
        ir_agent::fits(c),
        in_loop(c, label),
    ensures
        covered(ir_agent::block_under(c, label), at_hand(label)),
{
    if label == 0 {
        entry_block_is_covered(c.model);
    } else if label == 1 {
        done_block_is_covered();
    } else if label == 2 {
        prepare_block_is_covered();
    } else if label == 3 {
        loop_block_is_covered();
    } else if label == 4 {
        body_block_is_covered();
    } else if label == 5 {
        next_block_is_covered();
    } else if label == 6 {
        shell_dispatch_block_is_covered(ir_agent::after_shell(c));
    } else if label == 7 {
        shell_block_is_covered();
    } else if label == 8 {
        infer_block_is_covered();
    } else if label == 9 {
        append_block_is_covered();
    } else if label == 10 {
        unknown_block_is_covered(ir_agent::available(c));
    } else if label == 11 {
        invalid_block_is_covered();
    } else if label == 12 {
        shell_eval_block_is_covered(c.shell_requires_approval);
    } else if label == 13 {
        infer_eval_block_is_covered();
    } else if label == 14 {
        route_block_is_covered();
    } else if label == 15 {
        nudge_block_is_covered();
    } else if label == 16 {
        end_block_is_covered();
    } else if label == 17 {
        budget_block_is_covered();
    } else if label == 18 {
        remember_dispatch_block_is_covered();
    } else if label == 19 {
        remember_block_is_covered();
    } else if label == 20 {
        recall_dispatch_block_is_covered(ir_agent::fallback(c));
    } else if label == 21 {
        recall_block_is_covered();
    } else if label == 22 {
        store_block_is_covered();
    } else if label == 23 {
        retrieve_block_is_covered();
    } else {
        let k = (label - 24) / 2;
        if (label - 24) % 2 == 0 {
            native_dispatch_block_is_covered(
                c.native_tools[k],
                (label + 1) as u32,
                ir_agent::after_native(c, k),
            );
        } else {
            native_block_is_covered(c.native_tools[k]);
        }
    }
}

proof fn loop_is_closed(c: LoopShapeV, label: u32)
    requires
        ir_agent::fits(c),
        in_loop(c, label),
    ensures
        closed_under(c, label),
{
    let b = ir_agent::block_under(c, label);
    assert(b.params.no_duplicates()) by {
        reveal_strlit("history");
        reveal_strlit("tool_calls");
        reveal_strlit("i");
        reveal_strlit("turns_left");
        assert("history"@.len() == 7 && "i"@.len() == 1);
        assert("tool_calls"@.len() == 10 && "turns_left"@.len() == 10);
        assert("tool_calls"@[1] == 'o' && "turns_left"@[1] == 'u');
        if label == 0 {
            assert(b.params =~= seq!["history"@, "turns_left"@]);
        } else if label == 3 {
            assert(b.params =~= seq!["history"@, "tool_calls"@, "i"@, "turns_left"@]);
        } else if label == 9 {
            assert(b.params.len() == 1);
        } else {
            assert(b.params.len() == 0);
        }
    }
}

/// Every agent loop is a valid program, whatever its tools and policies.
pub proof fn every_loop_is_valid(c: LoopShapeV)
    requires
        ir_agent::fits(c),
    ensures
        ir_flow::valid(ir_agent::loop_program(c)),
{
    let p = ir_agent::loop_program(c);
    assert forall|l: u32| in_loop(c, l) implies #[trigger] closed_under(c, l) by {
        loop_is_closed(c, l);
    }
    assert forall|l: u32| in_loop(c, l) implies covered(
        #[trigger] ir_agent::block_under(c, l),
        at_hand(l),
    ) by {
        loop_is_covered(c, l);
    }
    loop_block_found(c, 0);
    assert forall|i: int| 0 <= i < p.blocks.len() implies ir_flow::edges_ok(
        p.blocks,
        (#[trigger] p.blocks[i]).1,
    ) by {
        let l = ir_agent::label_at(c, i);
        assert(in_loop(c, l));
        assert(closed_under(c, l));
        let t = ir_agent::block_under(c, l).terminator;
        assert forall|k: int| 0 <= k < ir_vars::arities(t).len() implies ir_flow::edge_ok(
            p.blocks,
            #[trigger] ir_vars::arities(t)[k],
        ) by {
            assert(ir_vars::successors(t)[k] == ir_vars::arities(t)[k].0);
            loop_block_found(c, ir_vars::arities(t)[k].0);
        }
    }
    assert forall|v: Seq<char>| !ir_flow::required(p.blocks, p.entry).contains(v) by {
        if ir_flow::required(p.blocks, p.entry).contains(v) {
            let n = choose|n: nat| #[trigger] ir_flow::needs(p.blocks, p.entry, v, n);
            nothing_is_missing(c, 0, v, n);
        }
    }
    assert(ir_flow::required(p.blocks, p.entry) =~= Set::empty());
}

proof fn only_loop_blocks_are_reached(c: LoopShapeV, i: int)
    requires
        ir_agent::fits(c),
        0 <= i < ir_flow::reached(ir_agent::loop_program(c)).len(),
    ensures
        in_loop(c, ir_flow::reached(ir_agent::loop_program(c))[i]),
    decreases i,
{
    let p = ir_agent::loop_program(c);
    ir_flow::reached_facts(p);
    let ids = ir_flow::reached(p);
    if i > 0 {
        assert(ir_flow::follows(p.blocks, ids.take(i), ids[i]));
        let j = choose|j: int|
            0 <= j < ids.take(i).len() && (#[trigger] ir_flow::next_labels(
                p.blocks,
                ids.take(i)[j],
            )).contains(ids[i]);
        only_loop_blocks_are_reached(c, j);
        loop_block_found(c, ids[j]);
        loop_is_closed(c, ids[j]);
        let t = ir_agent::block_under(c, ids[j]).terminator;
        let k = choose|k: int| 0 <= k < ir_vars::successors(t).len() && ir_vars::successors(t)[k] == ids[i];
        assert(in_loop(c, ir_vars::successors(t)[k]));
    }
}

/// Every agent loop has a canonical form.
pub proof fn every_loop_is_sequential(c: LoopShapeV)
    requires
        ir_agent::fits(c),
    ensures
        normal_laws::sequential(ir_agent::loop_program(c)),
{
    let p = ir_agent::loop_program(c);
    assert forall|i: int| 0 <= i < ir_flow::reached(p).len() implies ({
        let b = ir::block_at(p.blocks, #[trigger] ir_flow::reached(p)[i])->0;
        b.params.no_duplicates() && !(b.terminator is Par)
    }) by {
        only_loop_blocks_are_reached(c, i);
        let l = ir_flow::reached(p)[i];
        loop_block_found(c, l);
        loop_is_closed(c, l);
    }
}


/// The tools of a loop and its policies are part of its program: two loops with
/// the same program have the same model, the same tools and the same gates.
pub proof fn loops_show_their_shape(a: LoopShapeV, b: LoopShapeV)
    requires
        ir_agent::fits(a),
        ir_agent::fits(b),
        ir_agent::loop_program(a) == ir_agent::loop_program(b),
    ensures
        a.model == b.model,
        a.memory_tools == b.memory_tools,
        a.native_tools == b.native_tools,
        a.shell_requires_approval == b.shell_requires_approval,
{
    let x = ir_agent::loop_blocks(a);
    let y = ir_agent::loop_blocks(b);
    assert(x.len() == y.len());
    assert(x[0].1 == ir_agent::entry_block(a.model) && y[0].1 == ir_agent::entry_block(b.model));
    assert(ir_agent::entry_block(a.model).instructions[0] == ir_agent::entry_block(
        b.model,
    ).instructions[0]);
    assert(x[12].1 == ir_agent::shell_eval_block(a.shell_requires_approval));
    assert(y[12].1 == ir_agent::shell_eval_block(b.shell_requires_approval));
    assert(x[12].1.instructions[0] == y[12].1.instructions[0]);
    if a.memory_tools != b.memory_tools {
        assert(x[18].0 == y[18].0);
    }
    assert(a.native_tools.len() == b.native_tools.len());
    assert forall|k: int| 0 <= k < a.native_tools.len() implies a.native_tools[k]
        == b.native_tools[k] by {
        let at = if a.memory_tools {
            25 + 2 * k
        } else {
            19 + 2 * k
        };
        assert(x[at] == y[at]);
        let label = (25 + 2 * k) as u32;
        assert(x[at].0 == label && y[at].0 == label);
        assert((label - 24) / 2 == k && (label - 24) % 2 == 1);
        assert(x[at].1 == ir_agent::native_block(a.native_tools[k]));
        assert(y[at].1 == ir_agent::native_block(b.native_tools[k]));
        assert(x[at].1.instructions[0] == y[at].1.instructions[0]);
    }
    assert(a.native_tools =~= b.native_tools);
}

} // verus!
