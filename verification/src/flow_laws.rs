//! What instructions read and define, where control goes, and how blocks pass on
//! what they need.
use crate::ir;
use crate::ir::{
    BlockV, Blocks, EvalRequestV, ExprV, InstrV, MatchArmV, ProgramV, PromptRefV, TerminatorV,
};
use crate::ir_flow;
use crate::ir_flow::ProgramErrorV;
use crate::ir_normalize;
use crate::ir_normalize::Naming;
use crate::ir_vars;
use crate::normal_laws;
use crate::text;
use vstd::prelude::*;

verus! {

/// An expression reads the variables that it names and those of its parts.
pub proof fn expressions_read_their_parts(e: ExprV, v: Seq<char>)
    ensures
        match e {
            ExprV::Value(_) => !ir_vars::expr_vars(e).contains(v),
            ExprV::Var(x) => ir_vars::expr_vars(e).contains(v) <==> v == x,
            ExprV::Field { base, .. } => ir_vars::expr_vars(e).contains(v) <==> v == base,
            ExprV::FieldOr { base, default, .. } => ir_vars::expr_vars(e).contains(v) <==> v == base
                || ir_vars::expr_vars(*default).contains(v),
            ExprV::If { cond, then_value, else_value } => ir_vars::expr_vars(e).contains(v)
                <==> ir_vars::expr_vars(*cond).contains(v) || ir_vars::expr_vars(
                *then_value,
            ).contains(v) || ir_vars::expr_vars(*else_value).contains(v),
            ExprV::Index { base, index } => ir_vars::expr_vars(e).contains(v) <==> v == base
                || ir_vars::expr_vars(*index).contains(v),
            ExprV::Push { base, value } => ir_vars::expr_vars(e).contains(v) <==> v == base
                || ir_vars::expr_vars(*value).contains(v),
            ExprV::Len { base } => ir_vars::expr_vars(e).contains(v) <==> v == base,
            ExprV::IsEmpty { base } => ir_vars::expr_vars(e).contains(v) <==> v == base,
            ExprV::HasPendingToolCalls { base } => ir_vars::expr_vars(e).contains(v) <==> v == base,
            ExprV::SelectToolResults { history, ids } => ir_vars::expr_vars(e).contains(v) <==> v
                == history || ir_vars::expr_vars(*ids).contains(v),
            _ => true,
        },
{
}

/// An instruction reads the variables of all of its expressions and no others.
pub proof fn instructions_read_their_parts(i: InstrV, v: Seq<char>)
    ensures
        match i {
            InstrV::Let { expr, .. } => ir_vars::uses(i).contains(v) <==> ir_vars::expr_vars(
                expr,
            ).contains(v),
            InstrV::Infer { model, prompt, .. } => ir_vars::uses(i).contains(v)
                <==> ir_vars::expr_vars(model).contains(v) || prompt == PromptRefV::Var(v) || prompt
                == PromptRefV::PromptIrVar(v),
            InstrV::Eval { request: EvalRequestV::Shell { command }, .. } => ir_vars::uses(
                i,
            ).contains(v) <==> ir_vars::expr_vars(command).contains(v),
            InstrV::Eval { request: EvalRequestV::Argv { argv }, .. } => ir_vars::uses(i).contains(v)
                <==> exists|k: int|
                0 <= k < argv.len() && ir_vars::expr_vars(#[trigger] argv[k]).contains(v),
            InstrV::Emit { event } => ir_vars::uses(i).contains(v) <==> ir_vars::expr_vars(
                event,
            ).contains(v),
            InstrV::Retrieve { query, .. } => ir_vars::uses(i).contains(v) <==> ir_vars::expr_vars(
                query,
            ).contains(v),
            InstrV::Store { sink, id, item, .. } => ir_vars::uses(i).contains(v)
                <==> ir_vars::expr_vars(sink).contains(v) || ir_vars::expr_vars(item).contains(v)
                || (id matches Some(e) && ir_vars::expr_vars(e).contains(v)),
            InstrV::Tool { arguments, .. } => ir_vars::uses(i).contains(v) <==> ir_vars::expr_vars(
                arguments,
            ).contains(v),
        },
{
    if let InstrV::Eval { request: EvalRequestV::Argv { argv }, .. } = i {
        lists_read_their_items(argv, v);
    }
}

/// A list of expressions reads what one of them reads.
pub proof fn lists_read_their_items(items: Seq<ExprV>, v: Seq<char>)
    ensures
        ir_vars::exprs_vars(items).contains(v) <==> exists|k: int|
            0 <= k < items.len() && ir_vars::expr_vars(#[trigger] items[k]).contains(v),
    decreases items.len(),
{
    if items.len() > 0 {
        let before = items.drop_last();
        lists_read_their_items(before, v);
        if ir_vars::exprs_vars(before).contains(v) {
            let k = choose|k: int|
                0 <= k < before.len() && ir_vars::expr_vars(#[trigger] before[k]).contains(v);
            assert(items[k] == before[k]);
        }
        if exists|k: int|
            0 <= k < items.len() && ir_vars::expr_vars(#[trigger] items[k]).contains(v) {
            let k = choose|k: int|
                0 <= k < items.len() && ir_vars::expr_vars(#[trigger] items[k]).contains(v);
            if k < before.len() {
                assert(before[k] == items[k]);
            }
        }
    }
}

/// An instruction defines its output; an event has none.
pub proof fn instructions_define_their_output(i: InstrV)
    ensures
        match i {
            InstrV::Let { out, .. } => ir_vars::defines(i) == Some(out),
            InstrV::Infer { out, .. } => ir_vars::defines(i) == Some(out),
            InstrV::Eval { out, .. } => ir_vars::defines(i) == Some(out),
            InstrV::Retrieve { out, .. } => ir_vars::defines(i) == Some(out),
            InstrV::Store { out, .. } => ir_vars::defines(i) == Some(out),
            InstrV::Tool { out, .. } => ir_vars::defines(i) == Some(out),
            InstrV::Emit { .. } => ir_vars::defines(i) is None,
        },
{
}

/// The edges of a terminator stand in the order in which it names its targets,
/// each with its own arguments.
pub proof fn edges_stand_in_order(t: TerminatorV)
    ensures
        ({
            let e = ir_vars::edges(t);
            match t {
                TerminatorV::Goto { block, args } => e.len() == 1 && e[0] == (block, args),
                TerminatorV::If { then_block, then_args, else_block, else_args, .. } => e.len() == 2
                    && e[0] == (then_block, then_args) && e[1] == (else_block, else_args),
                TerminatorV::Match { arms, default, default_args, .. } => {
                    &&& forall|i: int|
                        0 <= i < arms.len() ==> #[trigger] e[i] == (arms[i].block, arms[i].args)
                    &&& default matches Some(d) ==> e.len() == arms.len() + 1
                        && e[arms.len() as int] == (d, default_args)
                    &&& default is None ==> e.len() == arms.len()
                },
                TerminatorV::Return { .. } => e.len() == 0,
                TerminatorV::Par { branches, join } => e.len() == branches.len() + 1
                    && e[branches.len() as int].0 == join && forall|i: int|
                    0 <= i < branches.len() ==> (#[trigger] e[i]).0 == branches[i],
            }
        }),
        ir_vars::successors(t).len() == ir_vars::edges(t).len(),
        forall|i: int|
            0 <= i < ir_vars::edges(t).len() ==> #[trigger] ir_vars::successors(t)[i]
                == ir_vars::edges(t)[i].0,
        forall|i: int|
            0 <= i < ir_vars::edges(t).len() ==> #[trigger] ir_vars::arities(t)[i] == (
                ir_vars::edges(t)[i].0,
                ir_vars::edges(t)[i].1.len(),
            ),
{
}

/// A terminator reads what it decides by and all arguments that it may pass.
pub proof fn terminators_read_their_parts(t: TerminatorV, v: Seq<char>)
    ensures
        match t {
            TerminatorV::Goto { args, .. } => ir_vars::value_uses(t).contains(v)
                <==> ir_vars::exprs_vars(args).contains(v),
            TerminatorV::If { cond, then_args, else_args, .. } => ir_vars::value_uses(t).contains(v)
                <==> ir_vars::expr_vars(cond).contains(v) || ir_vars::exprs_vars(
                then_args,
            ).contains(v) || ir_vars::exprs_vars(else_args).contains(v),
            TerminatorV::Match { value, arms, default_args, .. } => ir_vars::value_uses(t).contains(
                v,
            ) <==> ir_vars::expr_vars(value).contains(v) || ir_vars::exprs_vars(
                default_args,
            ).contains(v) || exists|k: int|
                0 <= k < arms.len() && ir_vars::exprs_vars((#[trigger] arms[k]).args).contains(v),
            TerminatorV::Return { value } => ir_vars::value_uses(t).contains(v)
                <==> ir_vars::expr_vars(value).contains(v),
            TerminatorV::Par { .. } => !ir_vars::value_uses(t).contains(v),
        },
{
    if let TerminatorV::Match { arms, .. } = t {
        arms_read_their_arguments(arms, v);
    }
}

proof fn arms_read_their_arguments(arms: Seq<MatchArmV>, v: Seq<char>)
    ensures
        ir_vars::arms_vars(arms).contains(v) <==> exists|k: int|
            0 <= k < arms.len() && ir_vars::exprs_vars((#[trigger] arms[k]).args).contains(v),
    decreases arms.len(),
{
    if arms.len() > 0 {
        let before = arms.drop_last();
        arms_read_their_arguments(before, v);
        if ir_vars::arms_vars(before).contains(v) {
            let k = choose|k: int|
                0 <= k < before.len() && ir_vars::exprs_vars((#[trigger] before[k]).args).contains(
                    v,
                );
            assert(arms[k] == before[k]);
        }
        if exists|k: int|
            0 <= k < arms.len() && ir_vars::exprs_vars((#[trigger] arms[k]).args).contains(v) {
            let k = choose|k: int|
                0 <= k < arms.len() && ir_vars::exprs_vars((#[trigger] arms[k]).args).contains(v);
            if k < before.len() {
                assert(before[k] == arms[k]);
            }
        }
    }
}

/// A variable is free in a block where an instruction reads it that neither a
/// parameter nor an instruction before defines, and only there or in the
/// terminator.
pub proof fn variables_are_free_until_defined(b: BlockV, k: int, v: Seq<char>)
    requires
        0 <= k < b.instructions.len(),
        ir_vars::uses(b.instructions[k]).contains(v),
        !b.params.contains(v),
        forall|j: int| 0 <= j < k ==> ir_vars::defines(#[trigger] b.instructions[j]) != Some(v),
    ensures
        ir_vars::free_vars(b).contains(v),
{
    defined_before(b, k, v);
    free_stays(b, k + 1, b.instructions.len() as int, v);
}

/// A parameter is never free, whatever the block does with it.
pub proof fn parameters_are_not_free(b: BlockV, v: Seq<char>)
    requires
        b.params.contains(v),
    ensures
        !ir_vars::free_vars(b).contains(v),
        ir_vars::all_defined(b).contains(v),
{
    let n = b.instructions.len() as int;
    params_stay_defined(b, n, v);
}

/// A block defines its parameters and the outputs of its instructions, and nothing
/// else.
pub proof fn blocks_define_their_outputs(b: BlockV, v: Seq<char>)
    ensures
        ir_vars::all_defined(b).contains(v) <==> b.params.contains(v) || exists|k: int|
            0 <= k < b.instructions.len() && ir_vars::defines(#[trigger] b.instructions[k]) == Some(
                v,
            ),
{
    defined_by_some(b, b.instructions.len() as int, v);
}

proof fn defined_by_some(b: BlockV, n: int, v: Seq<char>)
    requires
        0 <= n <= b.instructions.len(),
    ensures
        ir_vars::defined_by(b, n).contains(v) <==> b.params.contains(v) || exists|k: int|
            0 <= k < n && ir_vars::defines(#[trigger] b.instructions[k]) == Some(v),
    decreases n,
{
    if n > 0 {
        defined_by_some(b, n - 1, v);
        if ir_vars::defines(b.instructions[n - 1]) == Some(v) {
            assert(0 <= n - 1 < n);
        }
    }
}

proof fn params_stay_defined(b: BlockV, n: int, v: Seq<char>)
    requires
        0 <= n <= b.instructions.len(),
        b.params.contains(v),
    ensures
        ir_vars::defined_by(b, n).contains(v),
        !ir_vars::free_before(b, n).contains(v),
    decreases n,
{
    if n > 0 {
        params_stay_defined(b, n - 1, v);
    }
}

proof fn defined_before(b: BlockV, k: int, v: Seq<char>)
    requires
        0 <= k <= b.instructions.len(),
        !b.params.contains(v),
        forall|j: int| 0 <= j < k ==> ir_vars::defines(#[trigger] b.instructions[j]) != Some(v),
    ensures
        !ir_vars::defined_by(b, k).contains(v),
    decreases k,
{
    if k > 0 {
        defined_before(b, k - 1, v);
        assert(ir_vars::defines(b.instructions[k - 1]) != Some(v));
    }
}

proof fn free_stays(b: BlockV, m: int, n: int, v: Seq<char>)
    requires
        0 < m <= n,
        ir_vars::free_before(b, m).contains(v),
    ensures
        ir_vars::free_before(b, n).contains(v),
    decreases n,
{
    if m < n {
        free_stays(b, m, n - 1, v);
    }
}

/// A block needs from before what is free in it, and what a block behind it needs
/// and it does not define itself, and nothing else.
pub proof fn needs_flow_back(blocks: Blocks, id: u32, b: BlockV, v: Seq<char>)
    requires
        ir::block_at(blocks, id) == Some(b),
    ensures
        ir_flow::required(blocks, id).contains(v) <==> ir_vars::free_vars(b).contains(v) || (
        !ir_vars::all_defined(b).contains(v) && exists|k: int|
            0 <= k < ir_vars::successors(b.terminator).len() && ir_flow::required(
                blocks,
                #[trigger] ir_vars::successors(b.terminator)[k],
            ).contains(v)),
{
    let next = ir_flow::next_labels(blocks, id);
    assert(next == ir_vars::successors(b.terminator));
    if ir_flow::required(blocks, id).contains(v) {
        let n = choose|n: nat| #[trigger] ir_flow::needs(blocks, id, v, n);
        if !ir_vars::free_vars(b).contains(v) {
            let k = choose|k: int|
                0 <= k < next.len() && ir_flow::needs(
                    blocks,
                    #[trigger] ir_flow::next_labels(blocks, id)[k],
                    v,
                    (n - 1) as nat,
                );
            assert(ir_flow::required(blocks, next[k]).contains(v));
        }
    }
    if ir_vars::free_vars(b).contains(v) {
        assert(ir_flow::needs(blocks, id, v, 0));
    }
    if !ir_vars::all_defined(b).contains(v) && exists|k: int|
        0 <= k < ir_vars::successors(b.terminator).len() && ir_flow::required(
            blocks,
            #[trigger] ir_vars::successors(b.terminator)[k],
        ).contains(v) {
        let k = choose|k: int|
            0 <= k < ir_vars::successors(b.terminator).len() && ir_flow::required(
                blocks,
                #[trigger] ir_vars::successors(b.terminator)[k],
            ).contains(v);
        let n = choose|n: nat| #[trigger] ir_flow::needs(blocks, next[k], v, n);
        assert(ir_flow::next_labels(blocks, id)[k] == next[k]);
        assert(ir_flow::needs(blocks, id, v, n + 1));
    }
}

/// Blocks are reached depth first: behind a block comes the first of its targets
/// that has not been reached, before anything else that is still to be visited.
pub proof fn targets_are_reached_in_depth(blocks: Blocks, todo: Seq<u32>, seen: Seq<u32>, x: u32)
    requires
        !seen.contains(x),
        ir_flow::next_labels(blocks, x).len() > 0,
        !seen.contains(ir_flow::next_labels(blocks, x)[0]),
        ir_flow::next_labels(blocks, x)[0] != x,
    ensures
        seen.push(x).push(ir_flow::next_labels(blocks, x)[0]).is_prefix_of(
            ir_flow::preorder(blocks, seq![x] + todo, seen),
        ),
{
    let next = ir_flow::next_labels(blocks, x);
    let first = seq![x] + todo;
    assert(first.drop_first() =~= todo);
    ir_flow::unseen_step(blocks, seen, x);
    ir::block_at_found(blocks, x);
    let then = next + todo;
    assert(ir_flow::preorder(blocks, first, seen) == ir_flow::preorder(blocks, then, seen.push(x)));
    assert(then[0] == next[0]);
    assert(!seen.push(x).contains(next[0])) by {
        if seen.push(x).contains(next[0]) {
            let j = choose|j: int| 0 <= j < seen.push(x).len() && seen.push(x)[j] == next[0];
            if j < seen.len() {
                assert(seen[j] == next[0]);
            }
        }
    }
    visited_stay_first(
        blocks,
        ir_flow::next_labels(blocks, then[0]) + then.drop_first(),
        seen.push(x).push(next[0]),
    );
}

proof fn visited_stay_first(blocks: Blocks, todo: Seq<u32>, seen: Seq<u32>)
    ensures
        seen.is_prefix_of(ir_flow::preorder(blocks, todo, seen)),
    decreases ir_flow::unseen(blocks, seen), todo.len(),
{
    if todo.len() > 0 {
        if seen.contains(todo[0]) {
            visited_stay_first(blocks, todo.drop_first(), seen);
        } else {
            ir_flow::unseen_step(blocks, seen, todo[0]);
            ir::block_at_found(blocks, todo[0]);
            let now = seen.push(todo[0]);
            if ir::block_at(blocks, todo[0]) is None {
                assert(ir_flow::next_labels(blocks, todo[0]) + todo.drop_first()
                    =~= todo.drop_first());
            }
            visited_stay_first(
                blocks,
                ir_flow::next_labels(blocks, todo[0]) + todo.drop_first(),
                now,
            );
            let all = ir_flow::preorder(blocks, todo, seen);
            assert(now.subrange(0, seen.len() as int) =~= seen);
            assert(forall|i: int| 0 <= i < now.len() ==> all[i] == now[i]);
        }
    }
}

/// In the form where blocks read only what they are given, an edge keeps its
/// arguments and then passes each added parameter of its target by its name.
pub proof fn edges_pass_what_is_needed(
    blocks: Blocks,
    order: Seq<Seq<char>>,
    target: u32,
    b: BlockV,
    existing: Seq<ExprV>,
    i: int,
)
    requires
        ir::block_at(blocks, target) == Some(b),
        b.params.no_duplicates(),
        existing.len() == b.params.len(),
    ensures
        ({
            let args = ir_normalize::ssa_args(blocks, order, target, existing);
            let params = ir_normalize::ssa_block(blocks, order, target).params;
            &&& args.len() == params.len()
            &&& 0 <= i < existing.len() ==> args[i] == existing[i] && params[i] == b.params[i]
            &&& existing.len() <= i < args.len() ==> args[i] == ExprV::Var(params[i])
        }),
{
    normal_laws::add_distinct(b.params);
    let params = ir_normalize::ssa_params(b, ir_flow::required(blocks, target), order);
    let extra = ir_normalize::pick(order, ir_flow::required(blocks, target), b.params);
    assert(params == b.params + extra);
    assert(params.skip(b.params.len() as int) =~= extra);
}

/// The parameters that a block gets are those that it needs and does not have, and
/// that some block defines.
pub proof fn added_parameters_are_needed(
    order: Seq<Seq<char>>,
    wanted: Set<Seq<char>>,
    params: Seq<Seq<char>>,
    v: Seq<char>,
)
    ensures
        ir_normalize::pick(order, wanted, params).contains(v) <==> order.contains(v)
            && wanted.contains(v) && !params.contains(v),
    decreases order.len(),
{
    if order.len() > 0 {
        let rest = order.drop_last();
        added_parameters_are_needed(rest, wanted, params, v);
        let before = ir_normalize::pick(rest, wanted, params);
        let all = ir_normalize::pick(order, wanted, params);
        if order.contains(v) {
            let k = choose|k: int| 0 <= k < order.len() && order[k] == v;
            if k < rest.len() {
                assert(rest[k] == v);
            }
        }
        if rest.contains(v) {
            let k = choose|k: int| 0 <= k < rest.len() && rest[k] == v;
            assert(order[k] == v);
        }
        if before.contains(v) {
            let k = choose|k: int| 0 <= k < before.len() && before[k] == v;
            assert(all[k] == v);
        }
        if all.contains(v) {
            let k = choose|k: int| 0 <= k < all.len() && all[k] == v;
            if k < before.len() {
                assert(before[k] == v);
            } else {
                assert(order[order.len() - 1] == v);
            }
        }
        if wanted.contains(order.last()) && !params.contains(order.last()) {
            assert(all[all.len() - 1] == order.last());
        }
    }
}

/// Canonical names count up: the parameters of a block get the next ones in their
/// order, and each output the one behind those before it.
pub proof fn names_count_up(b: BlockV, s: Naming, i: int)
    ensures
        ir_normalize::name_block(b, s) matches Some((c, now)) ==> {
            &&& c.params.len() == b.params.len()
            &&& 0 <= i < b.params.len() ==> c.params[i] == "v"@ + text::decimal((s.next + i) as nat)
            &&& c.instructions.len() == b.instructions.len()
            &&& b.instructions.len() > 0 && ir_vars::defines(b.instructions[0]) is Some
                ==> ir_vars::defines(c.instructions[0]) == Some(
                "v"@ + text::decimal(s.next + b.params.len()),
            )
            &&& now.next >= s.next + b.params.len()
        },
{
    params_take_names(b.params, s);
    let t = ir_normalize::name_params(b.params, s);
    outputs_take_names(b.instructions, t);
}

proof fn params_take_names(params: Seq<Seq<char>>, s: Naming)
    ensures
        ir_normalize::name_params(params, s).next == s.next + params.len(),
    decreases params.len(),
{
    if params.len() > 0 {
        params_take_names(params.drop_last(), s);
    }
}

proof fn outputs_take_names(list: Seq<InstrV>, s: Naming)
    ensures
        ir_normalize::name_instrs(list, s) matches Some((l, now)) ==> {
            &&& l.len() == list.len()
            &&& now.next >= s.next
            &&& list.len() > 0 && ir_vars::defines(list[0]) is Some ==> ir_vars::defines(l[0])
                == Some("v"@ + text::decimal(s.next))
        },
    decreases list.len(),
{
    if list.len() > 0 {
        let before = list.drop_last();
        outputs_take_names(before, s);
        if before.len() > 0 {
            assert(before[0] == list[0]);
        } else {
            assert(before =~= Seq::empty());
        }
    }
}

/// The entry of a program must be there, and every edge must go to a block with as
/// many parameters as it has arguments.
pub proof fn edges_match_their_targets(p: ProgramV, i: int, k: int)
    requires
        ir_flow::valid(p),
        0 <= i < p.blocks.len(),
        0 <= k < ir_vars::edges(p.blocks[i].1.terminator).len(),
    ensures
        ir::block_at(p.blocks, p.entry) is Some,
        ({
            let e = ir_vars::edges(p.blocks[i].1.terminator)[k];
            ir::block_at(p.blocks, e.0) matches Some(t) && t.params.len() == e.1.len()
        }),
{
    let t = p.blocks[i].1.terminator;
    edges_stand_in_order(t);
    assert(ir_flow::edge_ok(p.blocks, ir_vars::arities(t)[k]));
}

/// An edge with the wrong number of arguments is reported with the number that its
/// target takes and the number that it passes, and a missing target with where it
/// is gone to.
pub proof fn faults_are_reported_as_they_are(p: ProgramV, from: u32, to: u32, a: nat, b: nat)
    ensures
        ir_flow::is_wrong(
            p,
            ProgramErrorV::ArityMismatch { from, to, expected: a, got: b },
        ) ==> a != b && (ir::block_at(p.blocks, to) matches Some(t) && t.params.len() == a),
        ir_flow::is_wrong(p, ProgramErrorV::MissingTarget { from, to }) ==> ir::block_at(
            p.blocks,
            to,
        ) is None,
        ir_flow::is_wrong(p, ProgramErrorV::MissingEntry { block: to }) ==> ir::block_at(
            p.blocks,
            to,
        ) is None && p.entry == to,
{
}

/// What is wrong with a program is said with the blocks and variables that it is
/// about, in this order.
pub proof fn faults_are_told_in_words(from: u32, to: u32, a: nat, b: nat, v: Seq<char>)
    ensures
        ir_flow::program_error_text(ProgramErrorV::MissingEntry { block: to }) =~= "AgentIR entry block BlockId("@
            + text::decimal(to as nat) + ") does not exist"@,
        ir_flow::program_error_text(ProgramErrorV::MissingTarget { from, to })
            =~= "AgentIR block BlockId("@ + text::decimal(from as nat)
            + ") goes to unknown block BlockId("@ + text::decimal(to as nat) + ")"@,
        ir_flow::program_error_text(
            ProgramErrorV::ArityMismatch { from, to, expected: a, got: b },
        ) =~= "AgentIR edge from BlockId("@ + text::decimal(from as nat) + ") to BlockId("@
            + text::decimal(to as nat) + ") expected "@ + text::decimal(a) + " args, got "@
            + text::decimal(b),
        ir_flow::program_error_text(ProgramErrorV::UsedBeforeDefinition { var: v })
            =~= "AgentIR variable Var("@ + text::quoted(v) + ") is used before definition"@,
        ir_flow::program_error_text(ProgramErrorV::NotLocal { var: v, block: to })
            =~= "AgentIR strict SSA violation: variable Var("@ + text::quoted(v)
            + ") is not local to block BlockId("@ + text::decimal(to as nat) + ")"@,
{
    reveal_strlit("AgentIR entry block BlockId(");
    reveal_strlit("AgentIR entry block ");
    reveal_strlit("BlockId(");
    reveal_strlit(")");
    reveal_strlit(" does not exist");
    reveal_strlit(") does not exist");
    reveal_strlit("AgentIR block BlockId(");
    reveal_strlit("AgentIR block ");
    reveal_strlit(") goes to unknown block BlockId(");
    reveal_strlit(" goes to unknown block ");
    reveal_strlit("AgentIR edge from BlockId(");
    reveal_strlit("AgentIR edge from ");
    reveal_strlit(") to BlockId(");
    reveal_strlit(" to ");
    reveal_strlit(") expected ");
    reveal_strlit(" expected ");
    reveal_strlit("AgentIR variable Var(");
    reveal_strlit("AgentIR variable ");
    reveal_strlit("Var(");
    reveal_strlit(") is used before definition");
    reveal_strlit(" is used before definition");
    reveal_strlit("AgentIR strict SSA violation: variable Var(");
    reveal_strlit("AgentIR strict SSA violation: variable ");
    reveal_strlit(") is not local to block BlockId(");
    reveal_strlit(" is not local to block ");
}

/// Blocks are numbered in the order in which they are reached, from the entry on,
/// and keep what they do; where they go is numbered the same way.
pub proof fn blocks_are_numbered_as_reached(p: ProgramV, i: int)
    requires
        0 <= i < ir_flow::reached(p).len(),
        ir::block_at(p.blocks, ir_flow::reached(p)[i]) is Some,
        ir_flow::reached(p).len() <= u32::MAX,
    ensures
        ({
            let q = ir_normalize::renumbered(p);
            let id = ir_flow::reached(p)[i];
            let b = ir::block_at(p.blocks, id)->0;
            &&& q.entry == 0
            &&& ir_flow::reached(p)[0] == p.entry
            &&& q.blocks.len() == ir_flow::reached(p).len()
            &&& q.blocks[i].0 == i
            &&& q.blocks[i].1.params == b.params
            &&& q.blocks[i].1.instructions == b.instructions
            &&& ir_normalize::relabel(ir_flow::reached(p), id) == i
        }),
        forall|k: int|
            0 <= k < ir_vars::edges(ir::block_at(p.blocks, ir_flow::reached(p)[i])->0.terminator).len()
                ==> {
                let old = ir_vars::edges(
                    ir::block_at(p.blocks, ir_flow::reached(p)[i])->0.terminator,
                )[k];
                (#[trigger] ir_vars::edges(
                    ir_normalize::renumbered(p).blocks[i].1.terminator,
                )[k]).0 == ir_normalize::relabel(ir_flow::reached(p), old.0)
            },
{
    ir_flow::reached_facts(p);
    let ids = ir_flow::reached(p);
    ir_normalize::position_is_first(ids, ids[i], i);
    relabelling_keeps_edges(ir::block_at(p.blocks, ids[i])->0.terminator, ids);
}

proof fn relabelling_keeps_edges(t: TerminatorV, ids: Seq<u32>)
    ensures
        forall|k: int|
            0 <= k < ir_vars::edges(t).len() ==> (#[trigger] ir_vars::edges(
                ir_normalize::relabelled(t, ids),
            )[k]).0 == ir_normalize::relabel(ids, ir_vars::edges(t)[k].0) && ir_vars::edges(
                ir_normalize::relabelled(t, ids),
            )[k].1 == ir_vars::edges(t)[k].1,
{
}

/// By given tables too, an edge keeps its arguments and then passes each added parameter
/// of its target by its name; to a target that the tables do not list it passes nothing.
pub proof fn tables_pass_what_is_listed(
    blocks: Blocks,
    ids: Seq<u32>,
    wanted: Seq<Seq<Seq<char>>>,
    order: Seq<Seq<char>>,
    target: u32,
    b: BlockV,
    existing: Seq<ExprV>,
    i: int,
)
    requires
        ir::block_at(blocks, target) == Some(b),
        b.params.no_duplicates(),
        existing.len() == b.params.len(),
    ensures
        ({
            let args = ir_normalize::table_args(blocks, ids, wanted, order, target, existing);
            let params = ir_normalize::table_params(
                b,
                wanted[ir_normalize::position(ids, target)],
                order,
            );
            &&& !ids.contains(target) ==> args.len() == 0
            &&& ids.contains(target) ==> args.len() == params.len()
            &&& ids.contains(target) && 0 <= i < existing.len() ==> args[i] == existing[i]
                && params[i] == b.params[i]
            &&& ids.contains(target) && existing.len() <= i < args.len() ==> args[i] == ExprV::Var(
                params[i],
            )
        }),
{
    normal_laws::add_distinct(b.params);
    let list = wanted[ir_normalize::position(ids, target)];
    let params = ir_normalize::table_params(b, list, order);
    let extra = ir_normalize::pick(order, list.to_set(), b.params) + ir_normalize::leftover(
        list,
        order,
        b.params,
    );
    assert(params =~= b.params + extra);
    assert(params.skip(b.params.len() as int) =~= extra);
}

/// A name is placed once in a list of names, before the first that comes behind it.
pub proof fn names_are_placed_once(list: Seq<Seq<char>>, v: Seq<char>, x: Seq<char>)
    ensures
        ir_normalize::placed(list, v).contains(x) <==> list.contains(x) || x == v,
        list.len() > 0 && text::text_lt(v, list[0]) && list[0] != v ==> ir_normalize::placed(list, v)
            =~= seq![v] + list,
        list.len() > 0 && list[0] == v ==> ir_normalize::placed(list, v) == list,
    decreases list.len(),
{
    let p = ir_normalize::placed(list, v);
    if list.len() == 0 {
        assert(p[0] == v);
    } else if list[0] == v {
    } else if text::text_lt(v, list[0]) {
        assert(p[0] == v);
        if list.contains(x) {
            let k = choose|k: int| 0 <= k < list.len() && list[k] == x;
            assert(p[k + 1] == x);
        }
    } else {
        let rest = list.drop_first();
        names_are_placed_once(rest, v, x);
        let q = ir_normalize::placed(rest, v);
        if q.contains(x) {
            let k = choose|k: int| 0 <= k < q.len() && q[k] == x;
            assert(p[k + 1] == x);
        }
        if list.contains(x) {
            let k = choose|k: int| 0 <= k < list.len() && list[k] == x;
            if k > 0 {
                assert(rest[k - 1] == x);
            } else {
                assert(p[0] == x);
            }
        }
        if p.contains(x) {
            let k = choose|k: int| 0 <= k < p.len() && p[k] == x;
            if k > 0 {
                assert(q[k - 1] == x);
            }
        }
        if rest.contains(x) {
            let k = choose|k: int| 0 <= k < rest.len() && rest[k] == x;
            assert(list[k + 1] == x);
        }
    }
}

} // verus!
