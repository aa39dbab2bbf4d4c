//! Normalization of programs to the canonical form used for identity.
use crate::ir;
use crate::ir::{
    copy_exprs, copy_instrs, copy_strings, Block, BlockId, BlockV, Blocks, EvalRequest,
    EvalRequestV, Expr, ExprV, Instr, InstrV, MatchArm, MatchArmV, Program, ProgramV, PromptRef,
    PromptRefV, Terminator, TerminatorV, Var,
};
use crate::ir_flow;
use crate::ir_flow::{
    label_index, reachable_blocks, required_block_params, validate_program,
    validate_strict_ssa_program, ProgramError, ProgramErrorV,
};
use crate::ir_vars;
use crate::normal_laws;
use crate::ir_vars::{has_name, insert_name, instr_out_public};
use crate::op;
use crate::text;
use crate::text::{decimal_of, precedes};
use vstd::prelude::*;

verus! {

/// The list with a name added that it does not hold yet.
pub open spec fn add_name(list: Seq<Seq<char>>, v: Seq<char>) -> Seq<Seq<char>> {
    if list.contains(v) {
        list
    } else {
        list.push(v)
    }
}

/// The list with names added that it does not hold yet, in order.
pub open spec fn add_names(list: Seq<Seq<char>>, more: Seq<Seq<char>>) -> Seq<Seq<char>>
    decreases more.len(),
{
    if more.len() == 0 {
        list
    } else {
        add_name(add_names(list, more.drop_last()), more.last())
    }
}

/// The list with the outputs of some instructions added.
pub open spec fn add_outs(list: Seq<Seq<char>>, instrs: Seq<InstrV>) -> Seq<Seq<char>>
    decreases instrs.len(),
{
    if instrs.len() == 0 {
        list
    } else {
        let before = add_outs(list, instrs.drop_last());
        match ir_vars::defines(instrs.last()) {
            Some(v) => add_name(before, v),
            None => before,
        }
    }
}

/// The variables in the order in which the listed blocks first define them.
pub open spec fn def_order(blocks: Blocks, ids: Seq<u32>) -> Seq<Seq<char>>
    decreases ids.len(),
{
    if ids.len() == 0 {
        Seq::empty()
    } else {
        let before = def_order(blocks, ids.drop_last());
        match ir::block_at(blocks, ids.last()) {
            Some(b) => add_outs(add_names(before, b.params), b.instructions),
            None => before,
        }
    }
}

/// The variables in the order in which the listed blocks first define them.
pub fn definition_order(p: &Program, ids: &Vec<BlockId>) -> (r: Vec<String>)
    ensures
        ir_vars::distinct(r@),
        op::texts(r@) == def_order(p@.blocks, ir::labels(ids@)),
{
    let ghost ls = ir::labels(ids@);
    let ghost blocks = p@.blocks;
    let mut out: Vec<String> = Vec::new();
    let mut i: usize = 0;
    assert(op::texts(out@) =~= def_order(blocks, ls.take(0)));
    while i < ids.len()
        invariant
            i <= ids@.len(),
            ls == ir::labels(ids@),
            blocks == p@.blocks,
            ir_vars::distinct(out@),
            op::texts(out@) == def_order(blocks, ls.take(i as int)),
        decreases ids@.len() - i,
    {
        assert(ls.take(i + 1).drop_last() =~= ls.take(i as int));
        if let Some(b) = p.block(ids[i]) {
            let ghost start = op::texts(out@);
            let ghost ps = b@.params;
            let mut k: usize = 0;
            assert(ps.take(0) =~= Seq::empty());
            while k < b.params.len()
                invariant
                    k <= b.params@.len(),
                    ps == b@.params,
                    ir_vars::distinct(out@),
                    op::texts(out@) == add_names(start, ps.take(k as int)),
                decreases b.params@.len() - k,
            {
                assert(ps.take(k + 1).drop_last() =~= ps.take(k as int));
                insert_name(&mut out, &b.params[k].0);
                k += 1;
            }
            assert(ps.take(k as int) =~= ps);
            let ghost middle = op::texts(out@);
            let ghost is = b@.instructions;
            let mut m: usize = 0;
            assert(is.take(0) =~= Seq::empty());
            while m < b.instructions.len()
                invariant
                    m <= b.instructions@.len(),
                    is == b@.instructions,
                    ir_vars::distinct(out@),
                    op::texts(out@) == add_outs(middle, is.take(m as int)),
                decreases b.instructions@.len() - m,
            {
                assert(is.take(m + 1).drop_last() =~= is.take(m as int));
                assert(is.take(m + 1).last() == b.instructions@[m as int]@);
                if let Some(v) = instr_out_public(&b.instructions[m]) {
                    insert_name(&mut out, &v.0);
                }
                m += 1;
            }
            assert(is.take(m as int) =~= is);
        }
        i += 1;
    }
    assert(ls.take(i as int) =~= ls);
    out
}

/// The names of `order` that are in `wanted` and not among `params`, in order.
pub open spec fn pick(order: Seq<Seq<char>>, wanted: Set<Seq<char>>, params: Seq<Seq<char>>) -> Seq<
    Seq<char>,
>
    decreases order.len(),
{
    if order.len() == 0 {
        Seq::empty()
    } else {
        let before = pick(order.drop_last(), wanted, params);
        if wanted.contains(order.last()) && !params.contains(order.last()) {
            before.push(order.last())
        } else {
            before
        }
    }
}

/// The parameters of a block in SSA form: its own, each once, then the
/// variables it needs from before in order of definition.
pub open spec fn ssa_params(b: BlockV, wanted: Set<Seq<char>>, order: Seq<Seq<char>>) -> Seq<
    Seq<char>,
> {
    add_names(Seq::empty(), b.params) + pick(order, wanted, b.params)
}

/// A sorted list of names with one more in its place.
pub open spec fn placed(list: Seq<Seq<char>>, v: Seq<char>) -> Seq<Seq<char>>
    decreases list.len(),
{
    if list.len() == 0 {
        seq![v]
    } else if list[0] == v {
        list
    } else if text::text_lt(v, list[0]) {
        seq![v] + list
    } else {
        seq![list[0]] + placed(list.drop_first(), v)
    }
}

/// The names of `wanted` that are neither in `order` nor among `params`,
/// sorted.
pub open spec fn leftover(
    wanted: Seq<Seq<char>>,
    order: Seq<Seq<char>>,
    params: Seq<Seq<char>>,
) -> Seq<Seq<char>>
    decreases wanted.len(),
{
    if wanted.len() == 0 {
        Seq::empty()
    } else {
        let before = leftover(wanted.drop_last(), order, params);
        if order.contains(wanted.last()) || params.contains(wanted.last()) {
            before
        } else {
            placed(before, wanted.last())
        }
    }
}

/// The parameters that a block takes by given tables: its own, each once, then
/// the others that it is to have, in the given order, and last those that the
/// order does not know, by name.
pub open spec fn table_params(
    b: BlockV,
    wanted: Seq<Seq<char>>,
    order: Seq<Seq<char>>,
) -> Seq<Seq<char>> {
    ssa_params(b, wanted.to_set(), order) + leftover(wanted, order, b.params)
}

proof fn nothing_is_left_over(
    wanted: Seq<Seq<char>>,
    order: Seq<Seq<char>>,
    params: Seq<Seq<char>>,
)
    requires
        forall|i: int|
            0 <= i < wanted.len() ==> order.contains(#[trigger] wanted[i]) || params.contains(
                wanted[i],
            ),
    ensures
        leftover(wanted, order, params) == Seq::<Seq<char>>::empty(),
    decreases wanted.len(),
{
    if wanted.len() > 0 {
        let before = wanted.drop_last();
        assert forall|i: int| 0 <= i < before.len() implies order.contains(#[trigger] before[i])
            || params.contains(before[i]) by {
            assert(before[i] == wanted[i]);
        }
        nothing_is_left_over(before, order, params);
        assert(wanted.last() == wanted[wanted.len() - 1]);
    }
}

proof fn placed_after(list: Seq<Seq<char>>, v: Seq<char>, i: int)
    requires
        0 <= i <= list.len(),
        forall|j: int| 0 <= j < i ==> text::text_lt(#[trigger] list[j], v),
    ensures
        placed(list, v) == list.take(i) + placed(list.skip(i), v),
    decreases list.len(),
{
    if i == 0 {
        assert(list.skip(0) =~= list);
        assert(list.take(0) + placed(list, v) =~= placed(list, v));
    } else {
        let rest = list.drop_first();
        assert(text::text_lt(list[0], v));
        text::text_lt_irreflexive(v);
        if text::text_lt(v, list[0]) {
            text::text_lt_transitive(v, list[0], v);
        }
        assert forall|j: int| 0 <= j < i - 1 implies text::text_lt(#[trigger] rest[j], v) by {
            assert(rest[j] == list[j + 1]);
        }
        placed_after(rest, v, i - 1);
        assert(rest.skip(i - 1) =~= list.skip(i));
        assert(seq![list[0]] + (rest.take(i - 1) + placed(list.skip(i), v)) =~= list.take(i)
            + placed(list.skip(i), v));
    }
}

/// Puts a name in its place in a sorted list.
fn place_name(list: &mut Vec<String>, v: &String)
    ensures
        op::texts(final(list)@) == placed(op::texts(old(list)@), v@),
{
    let ghost all = op::texts(list@);
    let mut i: usize = 0;
    while i < list.len() && precedes(list[i].as_str(), v.as_str())
        invariant
            i <= list@.len(),
            all == op::texts(list@),
            forall|j: int| 0 <= j < i ==> text::text_lt(#[trigger] all[j], v@),
        decreases list@.len() - i,
    {
        i += 1;
    }
    proof {
        placed_after(all, v@, i as int);
    }
    let ghost rest = all.skip(i as int);
    if i < list.len() && list[i] == *v {
        assert(rest[0] == v@);
        assert(all.take(i as int) + rest =~= all);
    } else {
        proof {
            if i < list.len() {
                assert(rest[0] == all[i as int]);
                text::text_lt_total(v@, rest[0]);
            }
        }
        assert(placed(rest, v@) =~= seq![v@] + rest);
        let copy = v.clone();
        list.insert(i, copy);
        assert(op::texts(list@) =~= all.take(i as int) + (seq![v@] + rest));
    }
}

/// The parameters of a block in SSA form.
pub fn ordered_required_params(b: &Block, wanted: &Vec<String>, order: &Vec<String>) -> (r: Vec<
    String,
>)
    ensures
        op::texts(r@) == table_params(b@, op::texts(wanted@), op::texts(order@)),
{
    let mut out: Vec<String> = Vec::new();
    let ghost ps = b@.params;
    let mut k: usize = 0;
    assert(op::texts(out@) =~= add_names(Seq::empty(), ps.take(0)));
    while k < b.params.len()
        invariant
            k <= b.params@.len(),
            ps == b@.params,
            ir_vars::distinct(out@),
            op::texts(out@) == add_names(Seq::empty(), ps.take(k as int)),
        decreases b.params@.len() - k,
    {
        assert(ps.take(k + 1).drop_last() =~= ps.take(k as int));
        insert_name(&mut out, &b.params[k].0);
        k += 1;
    }
    assert(ps.take(k as int) =~= ps);
    let own = ir_vars::var_strings(&b.params);
    let ghost os = op::texts(order@);
    let ghost ws = ir_vars::names(wanted@);
    let ghost base = op::texts(out@);
    let mut i: usize = 0;
    assert(os.take(0) =~= Seq::empty());
    assert(base + Seq::<Seq<char>>::empty() =~= base);
    while i < order.len()
        invariant
            i <= order@.len(),
            os == op::texts(order@),
            ws == ir_vars::names(wanted@),
            ps == b@.params,
            ir_vars::names(own@) == ps.to_set(),
            op::texts(out@) == base + pick(os.take(i as int), ws, ps),
        decreases order@.len() - i,
    {
        assert(os.take(i + 1).drop_last() =~= os.take(i as int));
        if has_name(wanted, &order[i]) && !has_name(&own, &order[i]) {
            let ghost before = out@;
            let v = order[i].clone();
            out.push(v);
            assert(op::texts(out@) =~= op::texts(before).push(v@));
            assert(op::texts(out@) =~= base + pick(os.take(i + 1), ws, ps));
        }
        i += 1;
    }
    assert(os.take(i as int) =~= os);
    let ghost known = op::texts(out@);
    let ghost all = op::texts(wanted@);
    let mut rest: Vec<String> = Vec::new();
    let mut m: usize = 0;
    assert(all.take(0) =~= Seq::empty());
    assert(op::texts(rest@) =~= Seq::empty());
    while m < wanted.len()
        invariant
            m <= wanted@.len(),
            all == op::texts(wanted@),
            os == op::texts(order@),
            ps == b@.params,
            ir_vars::names(own@) == ps.to_set(),
            op::texts(rest@) == leftover(all.take(m as int), os, ps),
        decreases wanted@.len() - m,
    {
        assert(all.take(m + 1).drop_last() =~= all.take(m as int));
        assert(all.take(m + 1).last() == wanted@[m as int]@);
        if !has_name(order, &wanted[m]) && !has_name(&own, &wanted[m]) {
            place_name(&mut rest, &wanted[m]);
        }
        m += 1;
    }
    assert(all.take(m as int) =~= all);
    let mut k: usize = 0;
    assert(known + op::texts(rest@).take(0) =~= known);
    while k < rest.len()
        invariant
            k <= rest@.len(),
            op::texts(out@) == known + op::texts(rest@).take(k as int),
        decreases rest@.len() - k,
    {
        let ghost before = out@;
        let v = rest[k].clone();
        out.push(v);
        assert(op::texts(out@) =~= op::texts(before).push(v@));
        assert(op::texts(rest@).take(k + 1) =~= op::texts(rest@).take(k as int).push(v@));
        assert(op::texts(out@) =~= known + op::texts(rest@).take(k + 1));
        k += 1;
    }
    assert(op::texts(rest@).take(k as int) =~= op::texts(rest@));
    out
}

/// The names that stand behind the first `n`.
pub open spec fn beyond(list: Seq<Seq<char>>, n: nat) -> Seq<Seq<char>> {
    if n <= list.len() {
        list.skip(n as int)
    } else {
        Seq::empty()
    }
}

/// Variables as expressions.
pub open spec fn as_exprs(list: Seq<Seq<char>>) -> Seq<ExprV> {
    Seq::new(list.len(), |i: int| ExprV::Var(list[i]))
}

/// The arguments that an edge passes in SSA form: the existing ones, then the
/// added parameters of the target by name.
pub open spec fn ssa_args(
    blocks: Blocks,
    order: Seq<Seq<char>>,
    target: u32,
    existing: Seq<ExprV>,
) -> Seq<ExprV> {
    match ir::block_at(blocks, target) {
        Some(b) => existing + as_exprs(
            beyond(ssa_params(b, ir_flow::required(blocks, target), order), b.params.len()),
        ),
        None => Seq::empty(),
    }
}

/// A terminator with the added arguments.
pub open spec fn ssa_terminator(
    blocks: Blocks,
    order: Seq<Seq<char>>,
    t: TerminatorV,
) -> TerminatorV {
    match t {
        TerminatorV::Goto { block, args } => TerminatorV::Goto {
            block,
            args: ssa_args(blocks, order, block, args),
        },
        TerminatorV::If { cond, then_block, then_args, else_block, else_args } => TerminatorV::If {
            cond,
            then_block,
            then_args: ssa_args(blocks, order, then_block, then_args),
            else_block,
            else_args: ssa_args(blocks, order, else_block, else_args),
        },
        TerminatorV::Match { value, arms, default, default_args } => TerminatorV::Match {
            value,
            arms: Seq::new(
                arms.len(),
                |i: int|
                    MatchArmV {
                        pattern: arms[i].pattern,
                        block: arms[i].block,
                        args: ssa_args(blocks, order, arms[i].block, arms[i].args),
                    },
            ),
            default,
            default_args: match default {
                Some(d) => ssa_args(blocks, order, d, default_args),
                None => Seq::empty(),
            },
        },
        TerminatorV::Return { value } => TerminatorV::Return { value },
        TerminatorV::Par { branches, join } => TerminatorV::Par { branches, join },
    }
}

/// A block in SSA form.
pub open spec fn ssa_block(blocks: Blocks, order: Seq<Seq<char>>, id: u32) -> BlockV {
    let b = ir::block_at(blocks, id)->0;
    BlockV {
        params: ssa_params(b, ir_flow::required(blocks, id), order),
        instructions: b.instructions,
        terminator: ssa_terminator(blocks, order, b.terminator),
    }
}

/// The reached blocks in SSA form.
pub open spec fn ssa_blocks(p: ProgramV) -> Blocks {
    let ids = ir_flow::reached(p);
    let order = def_order(p.blocks, ids);
    Seq::new(ids.len(), |i: int| (ids[i], ssa_block(p.blocks, order, ids[i])))
}

/// The program in SSA form.
pub open spec fn ssa_program(p: ProgramV) -> ProgramV {
    ProgramV { id: Seq::empty(), entry: p.entry, blocks: ssa_blocks(p) }
}

/// What blocks are to take, as tables give it.
pub open spec fn wanted_lists(wanted: Seq<Vec<String>>) -> Seq<Seq<Seq<char>>> {
    Seq::new(wanted.len(), |i: int| op::texts(wanted[i]@))
}

/// Whether tables cover a program: each listed block is there, and there is an
/// entry for it.
pub open spec fn tables_cover(
    blocks: Blocks,
    ids: Seq<u32>,
    wanted: Seq<Seq<Seq<char>>>,
) -> bool {
    &&& wanted.len() == ids.len()
    &&& forall|i: int| 0 <= i < ids.len() ==> ir::block_at(blocks, #[trigger] ids[i]) is Some
}

/// The arguments that an edge passes by given tables: the existing ones, then
/// the added parameters of the target by name.  A target that is not listed
/// gets none.
pub open spec fn table_args(
    blocks: Blocks,
    ids: Seq<u32>,
    wanted: Seq<Seq<Seq<char>>>,
    order: Seq<Seq<char>>,
    target: u32,
    existing: Seq<ExprV>,
) -> Seq<ExprV> {
    match ir::block_at(blocks, target) {
        Some(b) => if ids.contains(target) {
            existing + as_exprs(
                beyond(table_params(b, wanted[position(ids, target)], order), b.params.len()),
            )
        } else {
            Seq::empty()
        },
        None => Seq::empty(),
    }
}

/// A terminator with the arguments that given tables add.
pub open spec fn table_terminator(
    blocks: Blocks,
    ids: Seq<u32>,
    wanted: Seq<Seq<Seq<char>>>,
    order: Seq<Seq<char>>,
    t: TerminatorV,
) -> TerminatorV {
    match t {
        TerminatorV::Goto { block, args } => TerminatorV::Goto {
            block,
            args: table_args(blocks, ids, wanted, order, block, args),
        },
        TerminatorV::If { cond, then_block, then_args, else_block, else_args } => TerminatorV::If {
            cond,
            then_block,
            then_args: table_args(blocks, ids, wanted, order, then_block, then_args),
            else_block,
            else_args: table_args(blocks, ids, wanted, order, else_block, else_args),
        },
        TerminatorV::Match { value, arms, default, default_args } => TerminatorV::Match {
            value,
            arms: Seq::new(
                arms.len(),
                |i: int|
                    MatchArmV {
                        pattern: arms[i].pattern,
                        block: arms[i].block,
                        args: table_args(
                            blocks,
                            ids,
                            wanted,
                            order,
                            arms[i].block,
                            arms[i].args,
                        ),
                    },
            ),
            default,
            default_args: match default {
                Some(d) => table_args(blocks, ids, wanted, order, d, default_args),
                None => Seq::empty(),
            },
        },
        other => other,
    }
}

/// The listed blocks of a program with the parameters and arguments that given
/// tables add.
pub open spec fn table_program(
    p: ProgramV,
    ids: Seq<u32>,
    wanted: Seq<Seq<Seq<char>>>,
    order: Seq<Seq<char>>,
) -> ProgramV {
    ProgramV {
        id: Seq::empty(),
        entry: p.entry,
        blocks: Seq::new(
            ids.len(),
            |i: int|
                {
                    let b = ir::block_at(p.blocks, ids[i])->0;
                    (
                        ids[i],
                        BlockV {
                            params: table_params(b, wanted[i], order),
                            instructions: b.instructions,
                            terminator: table_terminator(
                                p.blocks,
                                ids,
                                wanted,
                                order,
                                b.terminator,
                            ),
                        },
                    )
                },
        ),
    }
}

proof fn own_params_are_ssa(p: ProgramV, wanted: Seq<Seq<Seq<char>>>, i: int)
    requires
        ir_flow::valid(p),
        0 <= i < ir_flow::reached(p).len(),
        wanted[i].to_set() == ir_flow::required(p.blocks, ir_flow::reached(p)[i]),
    ensures
        ({
            let id = ir_flow::reached(p)[i];
            let order = def_order(p.blocks, ir_flow::reached(p));
            let b = ir::block_at(p.blocks, id)->0;
            table_params(b, wanted[i], order) == ssa_params(
                b,
                ir_flow::required(p.blocks, id),
                order,
            )
        }),
{
    let id = ir_flow::reached(p)[i];
    let order = def_order(p.blocks, ir_flow::reached(p));
    let b = ir::block_at(p.blocks, id)->0;
    let list = wanted[i];
    assert forall|k: int| 0 <= k < list.len() implies order.contains(#[trigger] list[k])
        || b.params.contains(list[k]) by {
        assert(list.to_set().contains(list[k]));
        normal_laws::required_is_ordered(p, i, list[k]);
    }
    nothing_is_left_over(list, order, b.params);
    let own = ssa_params(b, ir_flow::required(p.blocks, id), order);
    assert(own + Seq::<Seq<char>>::empty() =~= own);
}

proof fn own_args_are_ssa(
    p: ProgramV,
    wanted: Seq<Seq<Seq<char>>>,
    target: u32,
    existing: Seq<ExprV>,
)
    requires
        ir_flow::valid(p),
        all_present(p),
        ir_flow::reached(p).contains(target),
        forall|i: int|
            0 <= i < ir_flow::reached(p).len() ==> (#[trigger] wanted[i]).to_set()
                == ir_flow::required(p.blocks, ir_flow::reached(p)[i]),
    ensures
        ({
            let ids = ir_flow::reached(p);
            let order = def_order(p.blocks, ids);
            table_args(p.blocks, ids, wanted, order, target, existing) == ssa_args(
                p.blocks,
                order,
                target,
                existing,
            )
        }),
{
    let ids = ir_flow::reached(p);
    let i = first_position(ids, target);
    own_params_are_ssa(p, wanted, i);
}

/// Where a listed label stands first.
proof fn first_position(list: Seq<u32>, x: u32) -> (i: int)
    requires
        list.contains(x),
    ensures
        0 <= i < list.len(),
        list[i] == x,
        position(list, x) == i,
    decreases list.len(),
{
    let k = choose|k: int| 0 <= k < list.len() && list[k] == x;
    if list[0] == x {
        0
    } else {
        assert(list.drop_first()[k - 1] == x);
        1 + first_position(list.drop_first(), x)
    }
}

/// The tables that are a valid program's own give its SSA form.
pub proof fn own_tables_give_ssa(p: ProgramV, wanted: Seq<Seq<Seq<char>>>)
    requires
        ir_flow::valid(p),
        all_present(p),
        ir_flow::closed_with(p.blocks, ir_flow::reached(p), Seq::empty()),
        wanted.len() == ir_flow::reached(p).len(),
        forall|i: int|
            0 <= i < ir_flow::reached(p).len() ==> (#[trigger] wanted[i]).to_set()
                == ir_flow::required(p.blocks, ir_flow::reached(p)[i]),
    ensures
        table_program(
            p,
            ir_flow::reached(p),
            wanted,
            def_order(p.blocks, ir_flow::reached(p)),
        ) == ssa_program(p),
{
    let ids = ir_flow::reached(p);
    let order = def_order(p.blocks, ids);
    let one = table_program(p, ids, wanted, order).blocks;
    let two = ssa_blocks(p);
    assert forall|i: int| 0 <= i < ids.len() implies one[i] == two[i] by {
        assert(ir::block_at(p.blocks, ids[i]) is Some);
        own_params_are_ssa(p, wanted, i);
        let t = ir::block_at(p.blocks, ids[i])->0.terminator;
        let succ = ir_vars::successors(t);
        assert forall|k: int| 0 <= k < succ.len() implies ids.contains(#[trigger] succ[k]) by {
            assert(ir_flow::next_labels(p.blocks, ids[i])[k] == succ[k]);
        }
        own_terminators_are_ssa(p, wanted, t);
    }
    assert(one =~= two);
}

proof fn own_terminators_are_ssa(p: ProgramV, wanted: Seq<Seq<Seq<char>>>, t: TerminatorV)
    requires
        ir_flow::valid(p),
        all_present(p),
        forall|k: int|
            0 <= k < ir_vars::successors(t).len() ==> ir_flow::reached(p).contains(
                #[trigger] ir_vars::successors(t)[k],
            ),
        forall|i: int|
            0 <= i < ir_flow::reached(p).len() ==> (#[trigger] wanted[i]).to_set()
                == ir_flow::required(p.blocks, ir_flow::reached(p)[i]),
    ensures
        ({
            let ids = ir_flow::reached(p);
            let order = def_order(p.blocks, ids);
            table_terminator(p.blocks, ids, wanted, order, t) == ssa_terminator(p.blocks, order, t)
        }),
{
    let ids = ir_flow::reached(p);
    let order = def_order(p.blocks, ids);
    let succ = ir_vars::successors(t);
    match t {
        TerminatorV::Goto { block, args } => {
            assert(succ[0] == block);
            own_args_are_ssa(p, wanted, block, args);
        },
        TerminatorV::If { then_block, then_args, else_block, else_args, .. } => {
            assert(succ[0] == then_block && succ[1] == else_block);
            own_args_are_ssa(p, wanted, then_block, then_args);
            own_args_are_ssa(p, wanted, else_block, else_args);
        },
        TerminatorV::Match { arms, default, default_args, .. } => {
            let one = table_terminator(p.blocks, ids, wanted, order, t)->arms;
            let two = ssa_terminator(p.blocks, order, t)->arms;
            assert forall|k: int| 0 <= k < arms.len() implies one[k] == two[k] by {
                assert(succ[k] == arms[k].block);
                own_args_are_ssa(p, wanted, arms[k].block, arms[k].args);
            }
            assert(one =~= two);
            if let Some(d) = default {
                assert(succ[arms.len() as int] == d);
                own_args_are_ssa(p, wanted, d, default_args);
            }
        },
        _ => {},
    }
}

/// The arguments that an edge passes in SSA form.
fn args_for(
    p: &Program,
    ids: &Vec<BlockId>,
    wanted: &Vec<Vec<String>>,
    order: &Vec<String>,
    target: BlockId,
    existing: &Vec<Expr>,
) -> (r: Vec<Expr>)
    requires
        tables_cover(p@.blocks, ir::labels(ids@), wanted_lists(wanted@)),
    ensures
        ir::exprs(r@) == table_args(
            p@.blocks,
            ir::labels(ids@),
            wanted_lists(wanted@),
            op::texts(order@),
            target.0,
            ir::exprs(existing@),
        ),
{
    let mut out = copy_exprs(existing);
    if let (Some(b), Some(at)) = (p.block(target), label_index(ids, target)) {
        proof {
            position_is_first(ir::labels(ids@), target.0, at as int);
            assert(wanted_lists(wanted@)[at as int] == op::texts(wanted@[at as int]@));
        }
        let list = ordered_required_params(b, &wanted[at], order);
        let ghost all = op::texts(list@);
        let n: usize = b.params.len();
        let ghost base = ir::exprs(existing@);
        assert(b@.params.len() == n);
        let mut i: usize = n;
        assert(ir::exprs(out@) =~= base + as_exprs(all.subrange(0, 0)));
        if n <= list.len() {
            assert(all.subrange(n as int, n as int) =~= Seq::empty());
            while i < list.len()
                invariant
                    n <= i <= list@.len(),
                    all == op::texts(list@),
                    ir::exprs(out@) == base + as_exprs(all.subrange(n as int, i as int)),
                decreases list@.len() - i,
            {
                let ghost before = out@;
                let e = Expr::Var(Var(list[i].clone()));
                out.push(e);
                assert(ir::exprs(out@) =~= ir::exprs(before).push(e@));
                assert(all.subrange(n as int, i + 1) =~= all.subrange(n as int, i as int).push(
                    all[i as int],
                ));
                assert(as_exprs(all.subrange(n as int, i + 1)) =~= as_exprs(
                    all.subrange(n as int, i as int),
                ).push(e@));
                assert(ir::exprs(out@) =~= base + as_exprs(all.subrange(n as int, i + 1)));
                i += 1;
            }
            assert(all.subrange(n as int, i as int) =~= all.skip(n as int));
        }
        assert(ir::exprs(out@) =~= base + as_exprs(beyond(all, n as nat)));
        out
    } else {
        let none: Vec<Expr> = Vec::new();
        assert(ir::exprs(none@) =~= Seq::empty());
        none
    }
}

/// A terminator with the added arguments.
pub fn add_edge_args(
    t: &Terminator,
    p: &Program,
    ids: &Vec<BlockId>,
    wanted: &Vec<Vec<String>>,
    order: &Vec<String>,
) -> (r: Terminator)
    requires
        tables_cover(p@.blocks, ir::labels(ids@), wanted_lists(wanted@)),
    ensures
        r@ == table_terminator(
            p@.blocks,
            ir::labels(ids@),
            wanted_lists(wanted@),
            op::texts(order@),
            t@,
        ),
{
    let ghost ls = ir::labels(ids@);
    let ghost ws = wanted_lists(wanted@);
    match t {
        Terminator::Goto { block, args } => {
            Terminator::Goto { block: *block, args: args_for(p, ids, wanted, order, *block, args) }
        },
        Terminator::If { cond, then_block, then_args, else_block, else_args } => {
            Terminator::If {
                cond: cond.clone(),
                then_block: *then_block,
                then_args: args_for(p, ids, wanted, order, *then_block, then_args),
                else_block: *else_block,
                else_args: args_for(p, ids, wanted, order, *else_block, else_args),
            }
        },
        Terminator::Match { value, arms, default, default_args } => {
            let mut out: Vec<MatchArm> = Vec::new();
            let ghost goal = table_terminator(p@.blocks, ls, ws, op::texts(order@), t@)->arms;
            let mut i: usize = 0;
            while i < arms.len()
                invariant
                    i <= arms@.len(),
                    out@.len() == i,
                    *t matches Terminator::Match { arms: a, .. } && a@ == arms@,
                    ls == ir::labels(ids@),
                    ws == wanted_lists(wanted@),
                    tables_cover(p@.blocks, ls, ws),
                    goal == table_terminator(p@.blocks, ls, ws, op::texts(order@), t@)->arms,
                    forall|j: int| 0 <= j < i ==> (#[trigger] out@[j])@ == goal[j],
                decreases arms@.len() - i,
            {
                out.push(
                    MatchArm {
                        pattern: arms[i].pattern.clone(),
                        block: arms[i].block,
                        args: args_for(p, ids, wanted, order, arms[i].block, &arms[i].args),
                    },
                );
                i += 1;
            }
            assert(ir::match_arms(out@) =~= goal);
            let rest = match default {
                Some(d) => args_for(p, ids, wanted, order, *d, default_args),
                None => {
                    let none: Vec<Expr> = Vec::new();
                    assert(ir::exprs(none@) =~= Seq::empty());
                    none
                },
            };
            Terminator::Match {
                value: value.clone(),
                arms: out,
                default: *default,
                default_args: rest,
            }
        },
        Terminator::Return { value } => Terminator::Return { value: value.clone() },
        Terminator::Par { branches, join } => {
            let copy = copy_labels(branches);
            Terminator::Par { branches: copy, join: *join }
        },
    }
}

/// A copy of a list of labels.
fn copy_labels(list: &Vec<BlockId>) -> (r: Vec<BlockId>)
    ensures
        ir::labels(r@) == ir::labels(list@),
{
    let mut out: Vec<BlockId> = Vec::new();
    let mut i: usize = 0;
    while i < list.len()
        invariant
            i <= list@.len(),
            out@ == list@.take(i as int),
        decreases list@.len() - i,
    {
        out.push(list[i]);
        i += 1;
        assert(list@.take(i as int) =~= list@.take(i - 1).push(list@[i - 1]));
    }
    assert(list@.take(i as int) =~= list@);
    out
}

/// The names as variables.
fn as_vars(list: Vec<String>) -> (r: Vec<Var>)
    ensures
        ir::var_names(r@) == op::texts(list@),
{
    let mut out: Vec<Var> = Vec::new();
    let mut i: usize = 0;
    while i < list.len()
        invariant
            i <= list@.len(),
            out@.len() == i,
            forall|j: int| 0 <= j < i ==> (#[trigger] out@[j]).0@ == list@[j]@,
        decreases list@.len() - i,
    {
        out.push(Var(list[i].clone()));
        i += 1;
    }
    assert(ir::var_names(out@) =~= op::texts(list@));
    out
}

/// The listed blocks with the parameters that the tables add; every edge to one
/// of them passes what it takes.  From a program's own tables this is its SSA
/// form.
pub fn add_ssa_params(
    p: &Program,
    ids: &Vec<BlockId>,
    wanted: &Vec<Vec<String>>,
    order: &Vec<String>,
) -> (r: Program)
    requires
        tables_cover(p@.blocks, ir::labels(ids@), wanted_lists(wanted@)),
    ensures
        r@ == table_program(
            p@,
            ir::labels(ids@),
            wanted_lists(wanted@),
            op::texts(order@),
        ),
{
    let ghost ls = ir::labels(ids@);
    let ghost ws = wanted_lists(wanted@);
    let ghost goal = table_program(p@, ls, ws, op::texts(order@)).blocks;
    let mut blocks: Vec<(BlockId, Block)> = Vec::new();
    let mut i: usize = 0;
    while i < ids.len()
        invariant
            i <= ids@.len(),
            blocks@.len() == i,
            ls == ir::labels(ids@),
            ws == wanted_lists(wanted@),
            goal == table_program(p@, ls, ws, op::texts(order@)).blocks,
            tables_cover(p@.blocks, ls, ws),
            forall|j: int|
                0 <= j < i ==> ((#[trigger] blocks@[j]).0.0, blocks@[j].1@) == goal[j],
        decreases ids@.len() - i,
    {
        assert(ir::block_at(p@.blocks, ls[i as int]) is Some);
        if let Some(b) = p.block(ids[i]) {
            let params = ordered_required_params(b, &wanted[i], order);
            let terminator = add_edge_args(&b.terminator, p, ids, wanted, order);
            let block = Block {
                params: as_vars(params),
                instructions: copy_instrs(&b.instructions),
                terminator,
            };
            assert((ls[i as int], block@) == goal[i as int]);
            blocks.push((ids[i], block));
        }
        i += 1;
    }
    assert(ir::labelled(blocks@) =~= goal);
    let id = String::new();
    assert(id@ =~= Seq::empty());
    Program { id, entry: p.entry, blocks }
}

/// The position of a label in a list.
pub open spec fn position(list: Seq<u32>, x: u32) -> int
    decreases list.len(),
{
    if list.len() == 0 || list[0] == x {
        0
    } else {
        1 + position(list.drop_first(), x)
    }
}

/// The first occurrence is the position.
pub proof fn position_is_first(list: Seq<u32>, x: u32, i: int)
    requires
        0 <= i < list.len(),
        list[i] == x,
        forall|j: int| 0 <= j < i ==> list[j] != x,
    ensures
        position(list, x) == i,
    decreases list.len(),
{
    if i > 0 {
        assert(list[0] != x);
        assert forall|j: int| 0 <= j < i - 1 implies list.drop_first()[j] != x by {
            assert(list.drop_first()[j] == list[j + 1]);
        }
        position_is_first(list.drop_first(), x, i - 1);
    }
}

/// The new label of a block: its place in the order.
pub open spec fn relabel(list: Seq<u32>, x: u32) -> u32 {
    position(list, x) as u32
}

/// A terminator with new labels.
pub open spec fn relabelled(t: TerminatorV, list: Seq<u32>) -> TerminatorV {
    match t {
        TerminatorV::Goto { block, args } => TerminatorV::Goto {
            block: relabel(list, block),
            args,
        },
        TerminatorV::If { cond, then_block, then_args, else_block, else_args } => TerminatorV::If {
            cond,
            then_block: relabel(list, then_block),
            then_args,
            else_block: relabel(list, else_block),
            else_args,
        },
        TerminatorV::Match { value, arms, default, default_args } => TerminatorV::Match {
            value,
            arms: Seq::new(
                arms.len(),
                |i: int|
                    MatchArmV {
                        pattern: arms[i].pattern,
                        block: relabel(list, arms[i].block),
                        args: arms[i].args,
                    },
            ),
            default: match default {
                Some(d) => Some(relabel(list, d)),
                None => None,
            },
            default_args,
        },
        TerminatorV::Return { value } => TerminatorV::Return { value },
        TerminatorV::Par { branches, join } => TerminatorV::Par {
            branches: Seq::new(branches.len(), |i: int| relabel(list, branches[i])),
            join: relabel(list, join),
        },
    }
}

/// The new label of a block.
fn new_label(list: &Vec<BlockId>, x: BlockId) -> (r: BlockId)
    requires
        ir::labels(list@).contains(x.0),
    ensures
        r.0 == relabel(ir::labels(list@), x.0),
{
    match label_index(list, x) {
        Some(i) => {
            proof {
                position_is_first(ir::labels(list@), x.0, i as int);
            }
            BlockId(#[verifier::truncate] (i as u32))
        },
        None => x,
    }
}

/// A terminator with new labels.
pub fn map_terminator_blocks(t: &Terminator, list: &Vec<BlockId>) -> (r: Terminator)
    requires
        forall|k: int|
            0 <= k < ir_vars::successors(t@).len() ==> ir::labels(list@).contains(
                #[trigger] ir_vars::successors(t@)[k],
            ),
    ensures
        r@ == relabelled(t@, ir::labels(list@)),
{
    let ghost succ = ir_vars::successors(t@);
    let ghost ls = ir::labels(list@);
    match t {
        Terminator::Goto { block, args } => {
            assert(succ[0] == block.0);
            Terminator::Goto { block: new_label(list, *block), args: copy_exprs(args) }
        },
        Terminator::If { cond, then_block, then_args, else_block, else_args } => {
            assert(succ[0] == then_block.0);
            assert(succ[1] == else_block.0);
            Terminator::If {
                cond: cond.clone(),
                then_block: new_label(list, *then_block),
                then_args: copy_exprs(then_args),
                else_block: new_label(list, *else_block),
                else_args: copy_exprs(else_args),
            }
        },
        Terminator::Match { value, arms, default, default_args } => {
            let mut out: Vec<MatchArm> = Vec::new();
            let ghost goal = relabelled(t@, ls)->arms;
            let mut i: usize = 0;
            while i < arms.len()
                invariant
                    i <= arms@.len(),
                    out@.len() == i,
                    *t matches Terminator::Match { arms: a, .. } && a@ == arms@,
                    succ == ir_vars::successors(t@),
                    ls == ir::labels(list@),
                    goal == relabelled(t@, ls)->arms,
                    forall|k: int| 0 <= k < succ.len() ==> ls.contains(#[trigger] succ[k]),
                    forall|j: int| 0 <= j < i ==> (#[trigger] out@[j])@ == goal[j],
                decreases arms@.len() - i,
            {
                assert(succ[i as int] == arms@[i as int].block.0);
                out.push(
                    MatchArm {
                        pattern: arms[i].pattern.clone(),
                        block: new_label(list, arms[i].block),
                        args: copy_exprs(&arms[i].args),
                    },
                );
                i += 1;
            }
            assert(ir::match_arms(out@) =~= goal);
            let d = match default {
                Some(d) => {
                    assert(succ[arms@.len() as int] == d.0);
                    Some(new_label(list, *d))
                },
                None => None,
            };
            Terminator::Match {
                value: value.clone(),
                arms: out,
                default: d,
                default_args: copy_exprs(default_args),
            }
        },
        Terminator::Return { value } => Terminator::Return { value: value.clone() },
        Terminator::Par { branches, join } => {
            let mut out: Vec<BlockId> = Vec::new();
            let ghost goal = relabelled(t@, ls)->branches;
            let mut i: usize = 0;
            while i < branches.len()
                invariant
                    i <= branches@.len(),
                    out@.len() == i,
                    *t matches Terminator::Par { branches: a, .. } && a@ == branches@,
                    succ == ir_vars::successors(t@),
                    ls == ir::labels(list@),
                    goal == relabelled(t@, ls)->branches,
                    forall|k: int| 0 <= k < succ.len() ==> ls.contains(#[trigger] succ[k]),
                    forall|j: int| 0 <= j < i ==> (#[trigger] out@[j]).0 == goal[j],
                decreases branches@.len() - i,
            {
                assert(succ[i as int] == branches@[i as int].0);
                out.push(new_label(list, branches[i]));
                i += 1;
            }
            assert(ir::labels(out@) =~= goal);
            assert(succ[branches@.len() as int] == join.0);
            Terminator::Par { branches: out, join: new_label(list, *join) }
        },
    }
}

/// The reached blocks, numbered in depth-first order.
pub open spec fn renumbered(p: ProgramV) -> ProgramV {
    let ids = ir_flow::reached(p);
    ProgramV {
        id: Seq::empty(),
        entry: 0,
        blocks: Seq::new(
            ids.len(),
            |i: int|
                {
                    let b = ir::block_at(p.blocks, ids[i])->0;
                    (
                        i as u32,
                        BlockV {
                            params: b.params,
                            instructions: b.instructions,
                            terminator: relabelled(b.terminator, ids),
                        },
                    )
                },
        ),
    }
}

/// All reached labels carry a block.
pub open spec fn all_present(p: ProgramV) -> bool {
    forall|i: int|
        0 <= i < ir_flow::reached(p).len() ==> ir::block_at(
            p.blocks,
            #[trigger] ir_flow::reached(p)[i],
        ) is Some
}

/// The reached blocks, numbered in depth-first order.
pub fn renumber_blocks(p: &Program) -> (r: Program)
    requires
        all_present(p@),
    ensures
        r@ == renumbered(p@),
{
    let ids = reachable_blocks(p);
    let ghost ls = ir_flow::reached(p@);
    let ghost goal = renumbered(p@).blocks;
    proof {
        ir_flow::reached_facts(p@);
    }
    let mut blocks: Vec<(BlockId, Block)> = Vec::new();
    let mut i: usize = 0;
    while i < ids.len()
        invariant
            i <= ids@.len(),
            blocks@.len() == i,
            ls == ir_flow::reached(p@),
            ls == ir::labels(ids@),
            goal == renumbered(p@).blocks,
            all_present(p@),
            ir_flow::closed_with(p@.blocks, ls, Seq::empty()),
            forall|j: int|
                0 <= j < i ==> ((#[trigger] blocks@[j]).0.0, blocks@[j].1@) == goal[j],
        decreases ids@.len() - i,
    {
        assert(ir::block_at(p@.blocks, ls[i as int]) is Some);
        if let Some(b) = p.block(ids[i]) {
            let ghost succ = ir_vars::successors(b@.terminator);
            assert forall|k: int| 0 <= k < succ.len() implies ls.contains(#[trigger] succ[k]) by {
                assert(ir_flow::next_labels(p@.blocks, ls[i as int])[k] == succ[k]);
            }
            let block = Block {
                params: ir::copy_vars(&b.params),
                instructions: copy_instrs(&b.instructions),
                terminator: map_terminator_blocks(&b.terminator, &ids),
            };
            blocks.push((BlockId(#[verifier::truncate] (i as u32)), block));
        }
        i += 1;
    }
    assert(ir::labelled(blocks@) =~= goal);
    let id = String::new();
    assert(id@ =~= Seq::empty());
    Program { id, entry: BlockId(0), blocks }
}

/// The renaming that a list of pairs stands for; later pairs win.
pub open spec fn renames(list: Seq<(String, String)>) -> Map<Seq<char>, Seq<char>>
    decreases list.len(),
{
    if list.len() == 0 {
        Map::empty()
    } else {
        renames(list.drop_last()).insert(list.last().0@, list.last().1@)
    }
}

/// The new name of a variable.
pub open spec fn renamed_var(v: Seq<char>, env: Map<Seq<char>, Seq<char>>) -> Option<Seq<char>> {
    if env.contains_key(v) {
        Some(env[v])
    } else {
        None
    }
}

/// The expression with its variables renamed; none where a variable has no
/// new name.
pub open spec fn renamed_expr(e: ExprV, env: Map<Seq<char>, Seq<char>>) -> Option<ExprV>
    decreases e,
{
    match e {
        ExprV::Value(x) => Some(ExprV::Value(x)),
        ExprV::Var(x) => match renamed_var(x, env) {
            Some(a) => Some(ExprV::Var(a)),
            None => None,
        },
        ExprV::Field { base, field } => match renamed_var(base, env) {
            Some(a) => Some(ExprV::Field { base: a, field: field }),
            None => None,
        },
        ExprV::FieldOr { base, field, default } => match (
            renamed_var(base, env),
            renamed_expr(*default, env),
        ) {
            (
                Some(a),
                Some(b),
            ) => Some(ExprV::FieldOr { base: a, field: field, default: Box::new(b) }),
            _ => None,
        },
        ExprV::StringOr { value, default } => match (
            renamed_expr(*value, env),
            renamed_expr(*default, env),
        ) {
            (
                Some(a),
                Some(b),
            ) => Some(ExprV::StringOr { value: Box::new(a), default: Box::new(b) }),
            _ => None,
        },
        ExprV::If { cond, then_value, else_value } => match (
            renamed_expr(*cond, env),
            renamed_expr(*then_value, env),
            renamed_expr(*else_value, env),
        ) {
            (
                Some(a),
                Some(b),
                Some(c),
            ) => Some(ExprV::If {
                cond: Box::new(a),
                then_value: Box::new(b),
                else_value: Box::new(c),
            }),
            _ => None,
        },
        ExprV::Index { base, index } => match (renamed_var(base, env), renamed_expr(*index, env)) {
            (Some(a), Some(b)) => Some(ExprV::Index { base: a, index: Box::new(b) }),
            _ => None,
        },
        ExprV::Len { base } => match renamed_var(base, env) {
            Some(a) => Some(ExprV::Len { base: a }),
            None => None,
        },
        ExprV::IsEmpty { base } => match renamed_var(base, env) {
            Some(a) => Some(ExprV::IsEmpty { base: a }),
            None => None,
        },
        ExprV::Eq { left, right } => match (renamed_expr(*left, env), renamed_expr(*right, env)) {
            (Some(a), Some(b)) => Some(ExprV::Eq { left: Box::new(a), right: Box::new(b) }),
            _ => None,
        },
        ExprV::Lt { left, right } => match (renamed_expr(*left, env), renamed_expr(*right, env)) {
            (Some(a), Some(b)) => Some(ExprV::Lt { left: Box::new(a), right: Box::new(b) }),
            _ => None,
        },
        ExprV::Or { left, right } => match (renamed_expr(*left, env), renamed_expr(*right, env)) {
            (Some(a), Some(b)) => Some(ExprV::Or { left: Box::new(a), right: Box::new(b) }),
            _ => None,
        },
        ExprV::And { left, right } => match (renamed_expr(*left, env), renamed_expr(*right, env)) {
            (Some(a), Some(b)) => Some(ExprV::And { left: Box::new(a), right: Box::new(b) }),
            _ => None,
        },
        ExprV::HasPendingToolCalls { base } => match renamed_var(base, env) {
            Some(a) => Some(ExprV::HasPendingToolCalls { base: a }),
            None => None,
        },
        ExprV::Add { left, right } => match (renamed_expr(*left, env), renamed_expr(*right, env)) {
            (Some(a), Some(b)) => Some(ExprV::Add { left: Box::new(a), right: Box::new(b) }),
            _ => None,
        },
        ExprV::Sub { left, right } => match (renamed_expr(*left, env), renamed_expr(*right, env)) {
            (Some(a), Some(b)) => Some(ExprV::Sub { left: Box::new(a), right: Box::new(b) }),
            _ => None,
        },
        ExprV::Push { base, value } => match (renamed_var(base, env), renamed_expr(*value, env)) {
            (Some(a), Some(b)) => Some(ExprV::Push { base: a, value: Box::new(b) }),
            _ => None,
        },
        ExprV::JsonParse { value } => match renamed_expr(*value, env) {
            Some(a) => Some(ExprV::JsonParse { value: Box::new(a) }),
            None => None,
        },
        ExprV::JsonParseOr { value, default } => match (
            renamed_expr(*value, env),
            renamed_expr(*default, env),
        ) {
            (
                Some(a),
                Some(b),
            ) => Some(ExprV::JsonParseOr { value: Box::new(a), default: Box::new(b) }),
            _ => None,
        },
        ExprV::ToString { value } => match renamed_expr(*value, env) {
            Some(a) => Some(ExprV::ToString { value: Box::new(a) }),
            None => None,
        },
        ExprV::Array(x) => match renamed_exprs(x, env) {
            Some(y) => Some(ExprV::Array(y)),
            None => None,
        },
        ExprV::Object(x) => match renamed_named(x, env) {
            Some(y) => Some(ExprV::Object(y)),
            None => None,
        },
        ExprV::Concat { left, right } => match (
            renamed_expr(*left, env),
            renamed_expr(*right, env),
        ) {
            (Some(a), Some(b)) => Some(ExprV::Concat { left: Box::new(a), right: Box::new(b) }),
            _ => None,
        },
        ExprV::SelectToolResults { history, ids } => match (
            renamed_var(history, env),
            renamed_expr(*ids, env),
        ) {
            (Some(a), Some(b)) => Some(ExprV::SelectToolResults { history: a, ids: Box::new(b) }),
            _ => None,
        },
    }
}

/// The expressions with their variables renamed.
pub open spec fn renamed_exprs(items: Seq<ExprV>, env: Map<Seq<char>, Seq<char>>) -> Option<
    Seq<ExprV>,
>
    decreases items,
{
    if items.len() == 0 {
        Some(Seq::empty())
    } else {
        match (
            renamed_exprs(items.drop_last(), env),
            renamed_expr(items[items.len() - 1], env),
        ) {
            (Some(before), Some(e)) => Some(before.push(e)),
            _ => None,
        }
    }
}

/// The named expressions with their variables renamed.
pub open spec fn renamed_named(
    items: Seq<(Seq<char>, ExprV)>,
    env: Map<Seq<char>, Seq<char>>,
) -> Option<Seq<(Seq<char>, ExprV)>>
    decreases items,
{
    if items.len() == 0 {
        Some(Seq::empty())
    } else {
        match (
            renamed_named(items.drop_last(), env),
            renamed_expr(items[items.len() - 1].1, env),
        ) {
            (Some(before), Some(e)) => Some(before.push((items[items.len() - 1].0, e))),
            _ => None,
        }
    }
}

proof fn renamed_exprs_stops(items: Seq<ExprV>, env: Map<Seq<char>, Seq<char>>, n: int)
    requires
        0 <= n <= items.len(),
        renamed_exprs(items.take(n), env) is None,
    ensures
        renamed_exprs(items, env) is None,
    decreases items.len(),
{
    if n == items.len() {
        assert(items.take(n) =~= items);
    } else {
        assert(items.drop_last().take(n) =~= items.take(n));
        renamed_exprs_stops(items.drop_last(), env, n);
    }
}

proof fn renamed_named_stops(
    items: Seq<(Seq<char>, ExprV)>,
    env: Map<Seq<char>, Seq<char>>,
    n: int,
)
    requires
        0 <= n <= items.len(),
        renamed_named(items.take(n), env) is None,
    ensures
        renamed_named(items, env) is None,
    decreases items.len(),
{
    if n == items.len() {
        assert(items.take(n) =~= items);
    } else {
        assert(items.drop_last().take(n) =~= items.take(n));
        renamed_named_stops(items.drop_last(), env, n);
    }
}

/// Whether a variable is one of those that have to be renamed and has no new
/// name.
pub open spec fn lacks(
    env: Map<Seq<char>, Seq<char>>,
    vars: Set<Seq<char>>,
    v: Seq<char>,
) -> bool {
    vars.contains(v) && !env.contains_key(v)
}

proof fn item_is_read(items: Seq<ExprV>, i: int)
    requires
        0 <= i < items.len(),
    ensures
        ir_vars::expr_vars(items[i]).subset_of(ir_vars::exprs_vars(items)),
    decreases items.len(),
{
    if i < items.len() - 1 {
        item_is_read(items.drop_last(), i);
    }
}

proof fn field_is_read(items: Seq<(Seq<char>, ExprV)>, i: int)
    requires
        0 <= i < items.len(),
    ensures
        ir_vars::expr_vars(items[i].1).subset_of(ir_vars::named_vars(items)),
    decreases items.len(),
{
    if i < items.len() - 1 {
        field_is_read(items.drop_last(), i);
    }
}

proof fn arm_is_read(arms: Seq<MatchArmV>, i: int)
    requires
        0 <= i < arms.len(),
    ensures
        ir_vars::exprs_vars(arms[i].args).subset_of(ir_vars::arms_vars(arms)),
    decreases arms.len(),
{
    if i < arms.len() - 1 {
        arm_is_read(arms.drop_last(), i);
    }
}

/// The new name of a variable.
pub fn rename_var(v: &Var, env: &Vec<(String, String)>) -> (r: Result<Var, String>)
    ensures
        match r {
            Ok(x) => renamed_var(v.0@, renames(env@)) == Some(x.0@),
            Err(x) => x@ == v.0@ && lacks(renames(env@), set![v.0@], x@),
        },
{
    let mut i: usize = env.len();
    assert(env@.take(i as int) =~= env@);
    while i > 0
        invariant
            i <= env@.len(),
            renamed_var(v.0@, renames(env@)) == renamed_var(v.0@, renames(env@.take(i as int))),
        decreases i,
    {
        assert(env@.take(i as int).drop_last() =~= env@.take(i - 1));
        if env[i - 1].0 == v.0 {
            return Ok(Var(env[i - 1].1.clone()));
        }
        i -= 1;
    }
    Err(v.0.clone())
}

/// The expression with its variables renamed.
pub fn rename_expr(e: &Expr, env: &Vec<(String, String)>) -> (r: Result<Expr, String>)
    ensures
        match r {
            Ok(x) => renamed_expr(e@, renames(env@)) == Some(x@),
            Err(v) => renamed_expr(e@, renames(env@)) is None && lacks(
                renames(env@),
                ir_vars::expr_vars(e@),
                v@,
            ),
        },
    decreases e,
{
    match e {
        Expr::Value(x) => Ok(Expr::Value(x.clone())),
        Expr::Var(x) => Ok(Expr::Var(rename_var(x, env)?)),
        Expr::Field {
            base,
            field,
        } => Ok(Expr::Field { base: rename_var(base, env)?, field: field.clone() }),
        Expr::FieldOr {
            base,
            field,
            default,
        } => Ok(Expr::FieldOr {
            base: rename_var(base, env)?,
            field: field.clone(),
            default: Box::new(rename_expr(default, env)?),
        }),
        Expr::StringOr {
            value,
            default,
        } => Ok(Expr::StringOr {
            value: Box::new(rename_expr(value, env)?),
            default: Box::new(rename_expr(default, env)?),
        }),
        Expr::If {
            cond,
            then_value,
            else_value,
        } => Ok(Expr::If {
            cond: Box::new(rename_expr(cond, env)?),
            then_value: Box::new(rename_expr(then_value, env)?),
            else_value: Box::new(rename_expr(else_value, env)?),
        }),
        Expr::Index {
            base,
            index,
        } => Ok(Expr::Index {
            base: rename_var(base, env)?,
            index: Box::new(rename_expr(index, env)?),
        }),
        Expr::Len { base } => Ok(Expr::Len { base: rename_var(base, env)? }),
        Expr::IsEmpty { base } => Ok(Expr::IsEmpty { base: rename_var(base, env)? }),
        Expr::Eq {
            left,
            right,
        } => Ok(Expr::Eq {
            left: Box::new(rename_expr(left, env)?),
            right: Box::new(rename_expr(right, env)?),
        }),
        Expr::Lt {
            left,
            right,
        } => Ok(Expr::Lt {
            left: Box::new(rename_expr(left, env)?),
            right: Box::new(rename_expr(right, env)?),
        }),
        Expr::Or {
            left,
            right,
        } => Ok(Expr::Or {
            left: Box::new(rename_expr(left, env)?),
            right: Box::new(rename_expr(right, env)?),
        }),
        Expr::And {
            left,
            right,
        } => Ok(Expr::And {
            left: Box::new(rename_expr(left, env)?),
            right: Box::new(rename_expr(right, env)?),
        }),
        Expr::HasPendingToolCalls { base } => Ok(Expr::HasPendingToolCalls { base: rename_var(
            base,
            env,
        )? }),
        Expr::Add {
            left,
            right,
        } => Ok(Expr::Add {
            left: Box::new(rename_expr(left, env)?),
            right: Box::new(rename_expr(right, env)?),
        }),
        Expr::Sub {
            left,
            right,
        } => Ok(Expr::Sub {
            left: Box::new(rename_expr(left, env)?),
            right: Box::new(rename_expr(right, env)?),
        }),
        Expr::Push {
            base,
            value,
        } => Ok(Expr::Push {
            base: rename_var(base, env)?,
            value: Box::new(rename_expr(value, env)?),
        }),
        Expr::JsonParse { value } => Ok(Expr::JsonParse { value: Box::new(rename_expr(
            value,
            env,
        )?) }),
        Expr::JsonParseOr {
            value,
            default,
        } => Ok(Expr::JsonParseOr {
            value: Box::new(rename_expr(value, env)?),
            default: Box::new(rename_expr(default, env)?),
        }),
        Expr::ToString { value } => Ok(Expr::ToString { value: Box::new(rename_expr(
            value,
            env,
        )?) }),
        Expr::Array(items) => {
            proof {
                ir::expr_view_parts(*e);
            }
            let ghost es = ir::exprs(items@);
            let ghost m = renames(env@);
            let mut out: Vec<Expr> = Vec::new();
            let mut i: usize = 0;
            assert(es.take(0) =~= Seq::empty());
            assert(ir::exprs(out@) =~= Seq::empty());
            while i < items.len()
                invariant
                    i <= items@.len(),
                    decreases_to!(e => items@),
                    es == ir::exprs(items@),
                    m == renames(env@),
                    e@ == ExprV::Array(es),
                    renamed_exprs(es.take(i as int), m) == Some(ir::exprs(out@)),
                decreases items@.len() - i,
            {
                assert(es.take(i + 1).drop_last() =~= es.take(i as int));
                match rename_expr(&items[i], env) {
                    Ok(x) => {
                        let ghost before = out@;
                        out.push(x);
                        assert(ir::exprs(out@) =~= ir::exprs(before).push(x@));
                    },
                    Err(v) => {
                        proof {
                            renamed_exprs_stops(es, m, i + 1);
                            item_is_read(es, i as int);
                        }
                        return Err(v);
                    },
                }
                i += 1;
            }
            assert(es.take(i as int) =~= es);
            let r = Expr::Array(out);
            proof {
                ir::expr_view_parts(r);
            }
            Ok(r)
        },
        Expr::Object(items) => {
            proof {
                ir::expr_view_parts(*e);
            }
            let ghost es = ir::named_exprs(items@);
            let ghost m = renames(env@);
            let mut out: Vec<(String, Expr)> = Vec::new();
            let mut i: usize = 0;
            assert(es.take(0) =~= Seq::empty());
            assert(ir::named_exprs(out@) =~= Seq::empty());
            while i < items.len()
                invariant
                    i <= items@.len(),
                    decreases_to!(e => items@),
                    es == ir::named_exprs(items@),
                    m == renames(env@),
                    e@ == ExprV::Object(es),
                    renamed_named(es.take(i as int), m) == Some(ir::named_exprs(out@)),
                decreases items@.len() - i,
            {
                assert(es.take(i + 1).drop_last() =~= es.take(i as int));
                match rename_expr(&items[i].1, env) {
                    Ok(x) => {
                        let ghost before = out@;
                        let item = (items[i].0.clone(), x);
                        out.push(item);
                        assert(ir::named_exprs(out@) =~= ir::named_exprs(before).push(
                            (item.0@, item.1@),
                        ));
                    },
                    Err(v) => {
                        proof {
                            renamed_named_stops(es, m, i + 1);
                            field_is_read(es, i as int);
                        }
                        return Err(v);
                    },
                }
                i += 1;
            }
            assert(es.take(i as int) =~= es);
            let r = Expr::Object(out);
            proof {
                ir::expr_view_parts(r);
            }
            Ok(r)
        },
        Expr::Concat {
            left,
            right,
        } => Ok(Expr::Concat {
            left: Box::new(rename_expr(left, env)?),
            right: Box::new(rename_expr(right, env)?),
        }),
        Expr::SelectToolResults {
            history,
            ids,
        } => Ok(Expr::SelectToolResults {
            history: rename_var(history, env)?,
            ids: Box::new(rename_expr(ids, env)?),
        }),
    }
}

/// The expressions with their variables renamed.
pub fn rename_exprs(
    items: &Vec<Expr>,
    env: &Vec<(String, String)>,
) -> (r: Result<Vec<Expr>, String>)
    ensures
        match r {
            Ok(x) => renamed_exprs(ir::exprs(items@), renames(env@)) == Some(ir::exprs(x@)),
            Err(v) => renamed_exprs(ir::exprs(items@), renames(env@)) is None && lacks(
                renames(env@),
                ir_vars::exprs_vars(ir::exprs(items@)),
                v@,
            ),
        },
{
    let ghost es = ir::exprs(items@);
    let ghost m = renames(env@);
    let mut out: Vec<Expr> = Vec::new();
    let mut i: usize = 0;
    assert(es.take(0) =~= Seq::empty());
    assert(ir::exprs(out@) =~= Seq::empty());
    while i < items.len()
        invariant
            i <= items@.len(),
            es == ir::exprs(items@),
            m == renames(env@),
            renamed_exprs(es.take(i as int), m) == Some(ir::exprs(out@)),
        decreases items@.len() - i,
    {
        assert(es.take(i + 1).drop_last() =~= es.take(i as int));
        match rename_expr(&items[i], env) {
            Ok(x) => {
                let ghost before = out@;
                out.push(x);
                assert(ir::exprs(out@) =~= ir::exprs(before).push(x@));
            },
            Err(v) => {
                proof {
                    renamed_exprs_stops(es, m, i + 1);
                    item_is_read(es, i as int);
                }
                return Err(v);
            },
        }
        i += 1;
    }
    assert(es.take(i as int) =~= es);
    Ok(out)
}

/// The prompt reference with its variable renamed.
pub open spec fn renamed_prompt(
    p: PromptRefV,
    env: Map<Seq<char>, Seq<char>>,
) -> Option<PromptRefV> {
    match p {
        PromptRefV::Var(v) => match renamed_var(v, env) {
            Some(x) => Some(PromptRefV::Var(x)),
            None => None,
        },
        PromptRefV::PromptIrVar(v) => match renamed_var(v, env) {
            Some(x) => Some(PromptRefV::PromptIrVar(x)),
            None => None,
        },
        other => Some(other),
    }
}

/// The prompt reference with its variable renamed.
pub fn rename_prompt(p: &PromptRef, env: &Vec<(String, String)>) -> (r: Result<PromptRef, String>)
    ensures
        match r {
            Ok(x) => renamed_prompt(p@, renames(env@)) == Some(x@),
            Err(v) => renamed_prompt(p@, renames(env@)) is None && lacks(
                renames(env@),
                ir_vars::prompt_vars(p@),
                v@,
            ),
        },
{
    match p {
        PromptRef::Var(v) => Ok(PromptRef::Var(rename_var(v, env)?)),
        PromptRef::PromptIrVar(v) => Ok(PromptRef::PromptIrVar(rename_var(v, env)?)),
        other => Ok(other.clone()),
    }
}

/// The evaluation request with its variables renamed.
pub open spec fn renamed_request(q: EvalRequestV, env: Map<Seq<char>, Seq<char>>) -> Option<
    EvalRequestV,
> {
    match q {
        EvalRequestV::Shell { command } => match renamed_expr(command, env) {
            Some(c) => Some(EvalRequestV::Shell { command: c }),
            None => None,
        },
        EvalRequestV::Argv { argv } => match renamed_exprs(argv, env) {
            Some(a) => Some(EvalRequestV::Argv { argv: a }),
            None => None,
        },
    }
}

/// The evaluation request with its variables renamed.
pub fn rename_eval_request(q: &EvalRequest, env: &Vec<(String, String)>) -> (r: Result<
    EvalRequest,
    String,
>)
    ensures
        match r {
            Ok(x) => renamed_request(q@, renames(env@)) == Some(x@),
            Err(v) => renamed_request(q@, renames(env@)) is None && lacks(
                renames(env@),
                ir_vars::request_vars(q@),
                v@,
            ),
        },
{
    match q {
        EvalRequest::Shell { command } => Ok(
            EvalRequest::Shell { command: rename_expr(command, env)? },
        ),
        EvalRequest::Argv { argv } => Ok(EvalRequest::Argv { argv: rename_exprs(argv, env)? }),
    }
}

/// An instruction with the variables that it reads renamed; its output keeps
/// its name.
pub open spec fn renamed_uses(i: InstrV, env: Map<Seq<char>, Seq<char>>) -> Option<InstrV> {
    match i {
        InstrV::Let { out, expr } => match renamed_expr(expr, env) {
            Some(e) => Some(InstrV::Let { out, expr: e }),
            None => None,
        },
        InstrV::Infer { out, model, prompt, on_error, tools } => match (
            renamed_expr(model, env),
            renamed_prompt(prompt, env),
        ) {
            (Some(m), Some(p)) => Some(
                InstrV::Infer { out, model: m, prompt: p, on_error, tools },
            ),
            _ => None,
        },
        InstrV::Eval { out, request, require_approval } => match renamed_request(request, env) {
            Some(q) => Some(InstrV::Eval { out, request: q, require_approval }),
            None => None,
        },
        InstrV::Emit { event } => match renamed_expr(event, env) {
            Some(e) => Some(InstrV::Emit { event: e }),
            None => None,
        },
        InstrV::Retrieve { out, query, kind, max_bytes, on_error } => match renamed_expr(
            query,
            env,
        ) {
            Some(q) => Some(InstrV::Retrieve { out, query: q, kind, max_bytes, on_error }),
            None => None,
        },
        InstrV::Store { out, sink, op, id, item, on_error } => {
            let new_id = match id {
                Some(e) => match renamed_expr(e, env) {
                    Some(x) => Some(Some(x)),
                    None => None,
                },
                None => Some(None),
            };
            match (renamed_expr(sink, env), new_id, renamed_expr(item, env)) {
                (Some(s), Some(d), Some(t)) => Some(
                    InstrV::Store { out, sink: s, op, id: d, item: t, on_error },
                ),
                _ => None,
            }
        },
        InstrV::Tool { out, name, arguments, on_error } => match renamed_expr(arguments, env) {
            Some(a) => Some(InstrV::Tool { out, name, arguments: a, on_error }),
            None => None,
        },
    }
}

/// An instruction with the variables that it reads renamed.
pub fn rename_instr_uses(i: &Instr, env: &Vec<(String, String)>) -> (r: Result<Instr, String>)
    ensures
        match r {
            Ok(x) => renamed_uses(i@, renames(env@)) == Some(x@),
            Err(v) => renamed_uses(i@, renames(env@)) is None && lacks(
                renames(env@),
                ir_vars::uses(i@),
                v@,
            ),
        },
{
    match i {
        Instr::Let { out, expr } => Ok(
            Instr::Let { out: out.clone(), expr: rename_expr(expr, env)? },
        ),
        Instr::Infer { out, model, prompt, on_error, tools } => Ok(
            Instr::Infer {
                out: out.clone(),
                model: rename_expr(model, env)?,
                prompt: rename_prompt(prompt, env)?,
                on_error: *on_error,
                tools: match tools {
                    Some(names) => Some(copy_strings(names)),
                    None => None,
                },
            },
        ),
        Instr::Eval { out, request, require_approval } => Ok(
            Instr::Eval {
                out: out.clone(),
                request: rename_eval_request(request, env)?,
                require_approval: *require_approval,
            },
        ),
        Instr::Emit { event } => Ok(Instr::Emit { event: rename_expr(event, env)? }),
        Instr::Retrieve { out, query, kind, max_bytes, on_error } => Ok(
            Instr::Retrieve {
                out: out.clone(),
                query: rename_expr(query, env)?,
                kind: *kind,
                max_bytes: *max_bytes,
                on_error: *on_error,
            },
        ),
        Instr::Store { out, sink, op, id, item, on_error } => Ok(
            Instr::Store {
                out: out.clone(),
                sink: rename_expr(sink, env)?,
                op: *op,
                id: match id {
                    Some(e) => Some(rename_expr(e, env)?),
                    None => None,
                },
                item: rename_expr(item, env)?,
                on_error: *on_error,
            },
        ),
        Instr::Tool { out, name, arguments, on_error } => Ok(
            Instr::Tool {
                out: out.clone(),
                name: name.clone(),
                arguments: rename_expr(arguments, env)?,
                on_error: *on_error,
            },
        ),
    }
}

/// An instruction with its output renamed.
pub open spec fn with_out(i: InstrV, v: Seq<char>) -> InstrV {
    match i {
        InstrV::Let { out, expr } => InstrV::Let { out: v, expr },
        InstrV::Infer { out, model, prompt, on_error, tools } => InstrV::Infer {
            out: v,
            model,
            prompt,
            on_error,
            tools,
        },
        InstrV::Eval { out, request, require_approval } => InstrV::Eval {
            out: v,
            request,
            require_approval,
        },
        InstrV::Emit { event } => InstrV::Emit { event },
        InstrV::Retrieve { out, query, kind, max_bytes, on_error } => InstrV::Retrieve {
            out: v,
            query,
            kind,
            max_bytes,
            on_error,
        },
        InstrV::Store { out, sink, op, id, item, on_error } => InstrV::Store {
            out: v,
            sink,
            op,
            id,
            item,
            on_error,
        },
        InstrV::Tool { out, name, arguments, on_error } => InstrV::Tool {
            out: v,
            name,
            arguments,
            on_error,
        },
    }
}

/// An instruction with its output renamed.
pub fn instr_with_out(i: Instr, v: Var) -> (r: Instr)
    ensures
        r@ == with_out(i@, v.0@),
{
    match i {
        Instr::Let { out, expr } => Instr::Let { out: v, expr },
        Instr::Infer { out, model, prompt, on_error, tools } => Instr::Infer {
            out: v,
            model,
            prompt,
            on_error,
            tools,
        },
        Instr::Eval { out, request, require_approval } => Instr::Eval {
            out: v,
            request,
            require_approval,
        },
        Instr::Emit { event } => Instr::Emit { event },
        Instr::Retrieve { out, query, kind, max_bytes, on_error } => Instr::Retrieve {
            out: v,
            query,
            kind,
            max_bytes,
            on_error,
        },
        Instr::Store { out, sink, op, id, item, on_error } => Instr::Store {
            out: v,
            sink,
            op,
            id,
            item,
            on_error,
        },
        Instr::Tool { out, name, arguments, on_error } => Instr::Tool {
            out: v,
            name,
            arguments,
            on_error,
        },
    }
}

/// The arms with their arguments renamed.
pub open spec fn renamed_arms(arms: Seq<MatchArmV>, env: Map<Seq<char>, Seq<char>>) -> Option<
    Seq<MatchArmV>,
>
    decreases arms.len(),
{
    if arms.len() == 0 {
        Some(Seq::empty())
    } else {
        match (renamed_arms(arms.drop_last(), env), renamed_exprs(arms.last().args, env)) {
            (Some(before), Some(args)) => Some(
                before.push(
                    MatchArmV { pattern: arms.last().pattern, block: arms.last().block, args },
                ),
            ),
            _ => None,
        }
    }
}

proof fn renamed_arms_stops(arms: Seq<MatchArmV>, env: Map<Seq<char>, Seq<char>>, n: int)
    requires
        0 <= n <= arms.len(),
        renamed_arms(arms.take(n), env) is None,
    ensures
        renamed_arms(arms, env) is None,
    decreases arms.len(),
{
    if n == arms.len() {
        assert(arms.take(n) =~= arms);
    } else {
        assert(arms.drop_last().take(n) =~= arms.take(n));
        renamed_arms_stops(arms.drop_last(), env, n);
    }
}

/// A terminator with its variables renamed.
pub open spec fn renamed_terminator(t: TerminatorV, env: Map<Seq<char>, Seq<char>>) -> Option<
    TerminatorV,
> {
    match t {
        TerminatorV::Goto { block, args } => match renamed_exprs(args, env) {
            Some(a) => Some(TerminatorV::Goto { block, args: a }),
            None => None,
        },
        TerminatorV::If { cond, then_block, then_args, else_block, else_args } => match (
            renamed_expr(cond, env),
            renamed_exprs(then_args, env),
            renamed_exprs(else_args, env),
        ) {
            (Some(c), Some(a), Some(b)) => Some(
                TerminatorV::If { cond: c, then_block, then_args: a, else_block, else_args: b },
            ),
            _ => None,
        },
        TerminatorV::Match { value, arms, default, default_args } => match (
            renamed_expr(value, env),
            renamed_arms(arms, env),
            renamed_exprs(default_args, env),
        ) {
            (Some(v), Some(a), Some(d)) => Some(
                TerminatorV::Match { value: v, arms: a, default, default_args: d },
            ),
            _ => None,
        },
        TerminatorV::Return { value } => match renamed_expr(value, env) {
            Some(v) => Some(TerminatorV::Return { value: v }),
            None => None,
        },
        TerminatorV::Par { branches, join } => Some(TerminatorV::Par { branches, join }),
    }
}

/// A terminator with its variables renamed.
pub fn rename_terminator_uses(t: &Terminator, env: &Vec<(String, String)>) -> (r: Result<
    Terminator,
    String,
>)
    ensures
        match r {
            Ok(x) => renamed_terminator(t@, renames(env@)) == Some(x@),
            Err(v) => renamed_terminator(t@, renames(env@)) is None && lacks(
                renames(env@),
                ir_vars::value_uses(t@),
                v@,
            ),
        },
{
    match t {
        Terminator::Goto { block, args } => Ok(
            Terminator::Goto { block: *block, args: rename_exprs(args, env)? },
        ),
        Terminator::If { cond, then_block, then_args, else_block, else_args } => Ok(
            Terminator::If {
                cond: rename_expr(cond, env)?,
                then_block: *then_block,
                then_args: rename_exprs(then_args, env)?,
                else_block: *else_block,
                else_args: rename_exprs(else_args, env)?,
            },
        ),
        Terminator::Match { value, arms, default, default_args } => {
            let value = rename_expr(value, env)?;
            let ghost all = ir::match_arms(arms@);
            let ghost m = renames(env@);
            let mut out: Vec<MatchArm> = Vec::new();
            let mut i: usize = 0;
            assert(all.take(0) =~= Seq::empty());
            assert(ir::match_arms(out@) =~= Seq::empty());
            while i < arms.len()
                invariant
                    i <= arms@.len(),
                    all == ir::match_arms(arms@),
                    m == renames(env@),
                    t@ matches TerminatorV::Match { arms: a, .. } && a == all,
                    renamed_arms(all.take(i as int), m) == Some(ir::match_arms(out@)),
                decreases arms@.len() - i,
            {
                assert(all.take(i + 1).drop_last() =~= all.take(i as int));
                assert(all.take(i + 1).last() == arms@[i as int]@);
                match rename_exprs(&arms[i].args, env) {
                    Ok(args) => {
                        let ghost before = out@;
                        let arm = MatchArm {
                            pattern: arms[i].pattern.clone(),
                            block: arms[i].block,
                            args,
                        };
                        out.push(arm);
                        assert(ir::match_arms(out@) =~= ir::match_arms(before).push(arm@));
                    },
                    Err(v) => {
                        proof {
                            renamed_arms_stops(all, m, i + 1);
                            arm_is_read(all, i as int);
                        }
                        return Err(v);
                    },
                }
                i += 1;
            }
            assert(all.take(i as int) =~= all);
            Ok(
                Terminator::Match {
                    value,
                    arms: out,
                    default: *default,
                    default_args: rename_exprs(default_args, env)?,
                },
            )
        },
        Terminator::Return { value } => Ok(
            Terminator::Return { value: rename_expr(value, env)? },
        ),
        Terminator::Par { branches, join } => Ok(
            Terminator::Par { branches: copy_labels(branches), join: *join },
        ),
    }
}

/// The `n`-th canonical variable name.
pub open spec fn fresh(n: nat) -> Seq<char> {
    "v"@ + text::decimal(n)
}

/// The `n`-th canonical variable name.
fn fresh_name(n: u128) -> (r: String)
    ensures
        r@ == fresh(n as nat),
{
    let mut out = "v".to_owned();
    out.append(decimal_of(n).as_str());
    out
}

/// The state of renaming: the current names and the number of the next one.
pub struct Naming {
    pub env: Map<Seq<char>, Seq<char>>,
    pub next: nat,
}

/// The parameters get the next names.
pub open spec fn name_params(params: Seq<Seq<char>>, s: Naming) -> Naming
    decreases params.len(),
{
    if params.len() == 0 {
        s
    } else {
        let before = name_params(params.drop_last(), s);
        Naming {
            env: before.env.insert(params.last(), fresh(before.next)),
            next: before.next + 1,
        }
    }
}

/// The instructions with canonical names: each reads the current names, then
/// its output gets the next one.
pub open spec fn name_instrs(list: Seq<InstrV>, s: Naming) -> Option<(Seq<InstrV>, Naming)>
    decreases list.len(),
{
    if list.len() == 0 {
        Some((Seq::empty(), s))
    } else {
        match name_instrs(list.drop_last(), s) {
            Some((before, now)) => match renamed_uses(list.last(), now.env) {
                Some(i) => match ir_vars::defines(list.last()) {
                    Some(v) => Some(
                        (
                            before.push(with_out(i, fresh(now.next))),
                            Naming {
                                env: now.env.insert(v, fresh(now.next)),
                                next: now.next + 1,
                            },
                        ),
                    ),
                    None => Some((before.push(i), now)),
                },
                None => None,
            },
            None => None,
        }
    }
}

/// A block with canonical names.
pub open spec fn name_block(b: BlockV, s: Naming) -> Option<(BlockV, Naming)> {
    match name_instrs(b.instructions, name_params(b.params, s)) {
        Some((instructions, now)) => match renamed_terminator(b.terminator, now.env) {
            Some(terminator) => Some(
                (
                    BlockV {
                        params: Seq::new(b.params.len(), |i: int| fresh((s.next + i) as nat)),
                        instructions,
                        terminator,
                    },
                    now,
                ),
            ),
            None => None,
        },
        None => None,
    }
}

/// The blocks with canonical names, one after the other.
pub open spec fn name_blocks(blocks: Blocks) -> Option<(Blocks, Naming)>
    decreases blocks.len(),
{
    if blocks.len() == 0 {
        Some((Seq::empty(), Naming { env: Map::empty(), next: 0 }))
    } else {
        match name_blocks(blocks.drop_last()) {
            Some((before, s)) => match name_block(blocks.last().1, s) {
                Some((b, now)) => Some((before.push((blocks.last().0, b)), now)),
                None => None,
            },
            None => None,
        }
    }
}

/// The state of renaming in a list of pairs and a counter.
pub open spec fn naming(env: Seq<(String, String)>, next: u128) -> Naming {
    Naming { env: renames(env), next: next as nat }
}

/// Adds a pair to a renaming.
fn bind_name(env: &mut Vec<(String, String)>, old_name: String, new_name: String)
    ensures
        renames(final(env)@) == renames(old(env)@).insert(old_name@, new_name@),
{
    let ghost before = env@;
    env.push((old_name, new_name));
    assert(env@.drop_last() =~= before);
}

/// A block with canonical names.
fn rename_block(
    b: &Block,
    env: &mut Vec<(String, String)>,
    next: &mut u128,
) -> (r: Result<Block, String>)
    requires
        *old(next) + b.params@.len() + b.instructions@.len() <= u128::MAX,
    ensures
        match r {
            Ok(x) => name_block(b@, naming(old(env)@, *old(next))) == Some(
                (x@, naming(final(env)@, *final(next))),
            ) && *final(next) <= *old(next) + b.params@.len() + b.instructions@.len(),
            Err(_) => name_block(b@, naming(old(env)@, *old(next))) is None,
        },
{
    let ghost s0 = naming(env@, *next);
    let ghost first = *next;
    let ghost ps = b@.params;
    let mut params: Vec<Var> = Vec::new();
    let mut i: usize = 0;
    assert(ps.take(0) =~= Seq::empty());
    while i < b.params.len()
        invariant
            i <= b.params@.len(),
            params@.len() == i,
            ps == b@.params,
            s0.next == first,
            *next == first + i,
            first + b.params@.len() + b.instructions@.len() <= u128::MAX,
            naming(env@, *next) == name_params(ps.take(i as int), s0),
            forall|j: int| 0 <= j < i ==> (#[trigger] params@[j]).0@ == fresh((s0.next + j) as nat),
        decreases b.params@.len() - i,
    {
        assert(ps.take(i + 1).drop_last() =~= ps.take(i as int));
        let name = fresh_name(*next);
        params.push(Var(name.clone()));
        bind_name(env, b.params[i].0.clone(), name);
        *next = *next + 1;
        i += 1;
    }
    assert(ps.take(i as int) =~= ps);
    let ghost s1 = naming(env@, *next);
    let ghost is = b@.instructions;
    let mut instructions: Vec<Instr> = Vec::new();
    let mut k: usize = 0;
    assert(is.take(0) =~= Seq::empty());
    assert(ir::instrs(instructions@) =~= Seq::empty());
    while k < b.instructions.len()
        invariant
            k <= b.instructions@.len(),
            is == b@.instructions,
            ps == b@.params,
            s1 == name_params(ps, s0),
            *next <= first + b.params@.len() + k,
            first + b.params@.len() + b.instructions@.len() <= u128::MAX,
            s0 == naming(old(env)@, *old(next)),
            name_instrs(is.take(k as int), s1) == Some(
                (ir::instrs(instructions@), naming(env@, *next)),
            ),
        decreases b.instructions@.len() - k,
    {
        assert(is.take(k + 1).drop_last() =~= is.take(k as int));
        assert(is.take(k + 1).last() == b.instructions@[k as int]@);
        match rename_instr_uses(&b.instructions[k], env) {
            Ok(renamed) => {
                let ghost before = instructions@;
                match instr_out_public(&b.instructions[k]) {
                    Some(v) => {
                        let name = fresh_name(*next);
                        let done = instr_with_out(renamed, Var(name.clone()));
                        bind_name(env, v.0.clone(), name);
                        *next = *next + 1;
                        instructions.push(done);
                        assert(ir::instrs(instructions@) =~= ir::instrs(before).push(done@));
                    },
                    None => {
                        instructions.push(renamed);
                        assert(ir::instrs(instructions@) =~= ir::instrs(before).push(renamed@));
                    },
                }
            },
            Err(v) => {
                proof {
                    name_instrs_stops(is, s1, k + 1);
                }
                return Err(v);
            },
        }
        k += 1;
    }
    assert(is.take(k as int) =~= is);
    let terminator = rename_terminator_uses(&b.terminator, env)?;
    let block = Block { params, instructions, terminator };
    assert(block@.params =~= Seq::new(ps.len(), |i: int| fresh((s0.next + i) as nat)));
    Ok(block)
}

proof fn name_instrs_stops(list: Seq<InstrV>, s: Naming, n: int)
    requires
        0 <= n <= list.len(),
        name_instrs(list.take(n), s) is None,
    ensures
        name_instrs(list, s) is None,
    decreases list.len(),
{
    if n == list.len() {
        assert(list.take(n) =~= list);
    } else {
        assert(list.drop_last().take(n) =~= list.take(n));
        name_instrs_stops(list.drop_last(), s, n);
    }
}

proof fn name_blocks_stops(blocks: Blocks, n: int)
    requires
        0 <= n <= blocks.len(),
        name_blocks(blocks.take(n)) is None,
    ensures
        name_blocks(blocks) is None,
    decreases blocks.len(),
{
    if n == blocks.len() {
        assert(blocks.take(n) =~= blocks);
    } else {
        assert(blocks.drop_last().take(n) =~= blocks.take(n));
        name_blocks_stops(blocks.drop_last(), n);
    }
}

/// The program with its variables named in order of definition.
pub fn rename_vars(p: &Program) -> (r: Result<Program, ProgramError>)
    requires
        p.blocks@.len() <= 0x1_0000_0000,
    ensures
        match r {
            Ok(q) => match name_blocks(p@.blocks) {
                Some((blocks, _)) => q@ == (ProgramV { id: Seq::empty(), entry: p@.entry, blocks }),
                None => false,
            },
            Err(e) => name_blocks(p@.blocks) is None && e@ is MissingRename,
        },
{
    let ghost all = p@.blocks;
    let mut env: Vec<(String, String)> = Vec::new();
    let mut next: u128 = 0;
    let mut blocks: Vec<(BlockId, Block)> = Vec::new();
    let mut i: usize = 0;
    assert(all.take(0) =~= Seq::empty());
    assert(ir::labelled(blocks@) =~= Seq::empty());
    assert(renames(env@) =~= Map::empty());
    while i < p.blocks.len()
        invariant
            i <= p.blocks@.len(),
            p.blocks@.len() <= 0x1_0000_0000,
            all == p@.blocks,
            next <= i * 0x2_0000_0000_0000_0000,
            name_blocks(all.take(i as int)) == Some((ir::labelled(blocks@), naming(env@, next))),
        decreases p.blocks@.len() - i,
    {
        assert(all.take(i + 1).drop_last() =~= all.take(i as int));
        assert(all.take(i + 1).last() == (p.blocks@[i as int].0.0, p.blocks@[i as int].1@));
        let n1: usize = p.blocks[i].1.params.len();
        let n2: usize = p.blocks[i].1.instructions.len();
        assert(next + n1 + n2 <= u128::MAX && next + n1 + n2 <= (i + 1) * 0x2_0000_0000_0000_0000)
            by (nonlinear_arith)
            requires
                next <= i * 0x2_0000_0000_0000_0000,
                i < 0x1_0000_0000,
                n1 <= usize::MAX,
                n2 <= usize::MAX,
                usize::MAX <= 0xffff_ffff_ffff_ffff,
        ;
        match rename_block(&p.blocks[i].1, &mut env, &mut next) {
            Ok(b) => {
                let ghost before = blocks@;
                let item = (p.blocks[i].0, b);
                blocks.push(item);
                assert(ir::labelled(blocks@) =~= ir::labelled(before).push((item.0.0, item.1@)));
            },
            Err(var) => {
                proof {
                    name_blocks_stops(all, i + 1);
                }
                return Err(ProgramError::MissingRename { var });
            },
        }
        i += 1;
    }
    assert(all.take(i as int) =~= all);
    let id = String::new();
    assert(id@ =~= Seq::empty());
    Ok(Program { id, entry: p.entry, blocks })
}

/// The canonical form of a program: the reached blocks in SSA form, numbered
/// in depth-first order, with variables named in order of definition.
pub open spec fn normal_form(p: ProgramV) -> Option<ProgramV> {
    let q = renumbered(ssa_program(p));
    match name_blocks(q.blocks) {
        Some((blocks, _)) => Some(ProgramV { id: Seq::empty(), entry: 0, blocks }),
        None => None,
    }
}

/// A list of distinct labels has at most as many as there are labels.
pub proof fn distinct_labels_bound(s: Seq<u32>)
    requires
        s.no_duplicates(),
    ensures
        s.len() <= 0x1_0000_0000,
{
    let t = s.map_values(|x: u32| x as int);
    assert(t.no_duplicates());
    t.unique_seq_to_set();
    let all = vstd::set_lib::set_int_range(0, 0x1_0000_0000);
    vstd::set_lib::lemma_int_range(0, 0x1_0000_0000);
    assert forall|x: int| t.to_set().contains(x) implies all.contains(x) by {
        let k = choose|k: int| 0 <= k < t.len() && t[k] == x;
        assert(t[k] == s[k] as int);
    }
    vstd::set_lib::lemma_len_subset(t.to_set(), all);
}

/// In a well-formed program every reached label carries a block.
pub proof fn reached_are_present(p: ProgramV)
    requires
        ir_flow::well_formed(p),
    ensures
        all_present(p),
{
    ir_flow::reached_facts(p);
    let ids = ir_flow::reached(p);
    assert forall|i: int| 0 <= i < ids.len() implies ir::block_at(
        p.blocks,
        #[trigger] ids[i],
    ) is Some by {
        if i > 0 {
            let before = ids.take(i);
            assert(ir_flow::follows(p.blocks, before, ids[i]));
            let j = choose|j: int|
                0 <= j < before.len() && (#[trigger] ir_flow::next_labels(
                    p.blocks,
                    before[j],
                )).contains(ids[i]);
            let next = ir_flow::next_labels(p.blocks, before[j]);
            let k = choose|k: int| 0 <= k < next.len() && next[k] == ids[i];
            ir::block_at_found(p.blocks, before[j]);
            let b = ir::block_at(p.blocks, before[j])->0;
            let m = choose|m: int|
                0 <= m < p.blocks.len() && (#[trigger] p.blocks[m]) == (before[j], b);
            assert(ir_flow::edges_ok(p.blocks, p.blocks[m].1));
            assert(ir_flow::edge_ok(p.blocks, ir_vars::arities(b.terminator)[k]));
        }
    }
}

/// The SSA form reaches the same labels, in the same order.
pub proof fn ssa_reaches_the_same(p: ProgramV)
    requires
        ir_flow::well_formed(p),
    ensures
        ir_flow::reached(ssa_program(p)) == ir_flow::reached(p),
        all_present(ssa_program(p)),
{
    let ids = ir_flow::reached(p);
    let q = ssa_program(p);
    reached_are_present(p);
    ir_flow::reached_facts(p);
    assert forall|i: int| 0 <= i < ids.len() implies {
        &&& ir::block_at(q.blocks, #[trigger] ids[i]) == Some(q.blocks[i].1)
        &&& ir_flow::next_labels(q.blocks, ids[i]) == ir_flow::next_labels(p.blocks, ids[i])
    } by {
        block_at_index(q.blocks, i);
        let order = def_order(p.blocks, ids);
        let b = ir::block_at(p.blocks, ids[i])->0;
        assert(q.blocks[i].1.terminator == ssa_terminator(p.blocks, order, b.terminator));
        assert(ir_vars::successors(ssa_terminator(p.blocks, order, b.terminator))
            =~= ir_vars::successors(b.terminator));
    }
    same_preorder(p.blocks, q.blocks, ids, seq![p.entry], Seq::empty());
}

/// A block with a label that no earlier block carries is found.
pub proof fn block_at_index(blocks: Blocks, i: int)
    requires
        0 <= i < blocks.len(),
        forall|j: int| 0 <= j < i ==> (#[trigger] blocks[j]).0 != blocks[i].0,
    ensures
        ir::block_at(blocks, blocks[i].0) == Some(blocks[i].1),
    decreases blocks.len(),
{
    if i > 0 {
        assert(blocks[0].0 != blocks[i].0);
        let rest = blocks.drop_first();
        assert forall|j: int| 0 <= j < i - 1 implies (#[trigger] rest[j]).0 != rest[i - 1].0 by {
            assert(rest[j] == blocks[j + 1]);
        }
        block_at_index(rest, i - 1);
    }
}

/// Two programs whose reached blocks go to the same labels are visited alike.
pub proof fn same_preorder(a: Blocks, b: Blocks, ids: Seq<u32>, todo: Seq<u32>, seen: Seq<u32>)
    requires
        ir_flow::preorder(a, todo, seen) == ids,
        forall|i: int|
            0 <= i < ids.len() ==> ir_flow::next_labels(a, #[trigger] ids[i])
                == ir_flow::next_labels(b, ids[i]),
    ensures
        ir_flow::preorder(b, todo, seen) == ids,
    decreases ir_flow::unseen(a, seen), todo.len(),
{
    if todo.len() > 0 {
        if seen.contains(todo[0]) {
            same_preorder(a, b, ids, todo.drop_first(), seen);
        } else {
            ir_flow::unseen_step(a, seen, todo[0]);
            ir::block_at_found(a, todo[0]);
            let now = seen.push(todo[0]);
            let more = ir_flow::next_labels(a, todo[0]) + todo.drop_first();
            seen_is_kept(a, more, now);
            assert(ids[seen.len() as int] == now[seen.len() as int]);
            assert(ir_flow::next_labels(a, todo[0]) == ir_flow::next_labels(b, todo[0]));
            same_preorder(a, b, ids, more, now);
        }
    }
}

proof fn seen_is_kept(blocks: Blocks, todo: Seq<u32>, seen: Seq<u32>)
    ensures
        seen.is_prefix_of(ir_flow::preorder(blocks, todo, seen)),
    decreases ir_flow::unseen(blocks, seen), todo.len(),
{
    if todo.len() > 0 {
        if seen.contains(todo[0]) {
            seen_is_kept(blocks, todo.drop_first(), seen);
        } else {
            ir_flow::unseen_step(blocks, seen, todo[0]);
            ir::block_at_found(blocks, todo[0]);
            let now = seen.push(todo[0]);
            seen_is_kept(blocks, ir_flow::next_labels(blocks, todo[0]) + todo.drop_first(), now);
            assert(forall|m: int| 0 <= m < seen.len() ==> seen[m] == now[m]);
        }
    }
}

/// The canonical form of a valid program, if it has one.
pub open spec fn canonical_form(p: ProgramV) -> Option<ProgramV> {
    match normal_form(p) {
        Some(q) => if ir_flow::valid(p) && ir_flow::strict_ssa(q) {
            Some(q)
        } else {
            None
        },
        None => None,
    }
}

/// Why a program has no canonical form: what is wrong with it, a variable that
/// gets no name, or what is wrong with the form that it would have.
pub open spec fn is_in_the_way(p: ProgramV, e: ProgramErrorV) -> bool {
    if !ir_flow::valid(p) {
        ir_flow::is_wrong(p, e)
    } else {
        match normal_form(p) {
            Some(q) => ir_flow::is_wrong(q, e),
            None => e is MissingRename,
        }
    }
}

/// The canonical form of a program.  Every valid program without parallel
/// branches and repeated parameters has one, in strict SSA form; another valid
/// program gets it where it passes the strict SSA check.
pub fn normalize_program(p: &Program) -> (r: Result<Program, ProgramError>)
    ensures
        match r {
            Ok(q) => canonical_form(p@) == Some(q@),
            Err(e) => canonical_form(p@) is None && is_in_the_way(p@, e@),
        },
        ir_flow::valid(p@) && normal_laws::sequential(p@) ==> r is Ok,
{
    validate_program(p)?;
    let ids = reachable_blocks(p);
    proof {
        ir_flow::reached_facts(p@);
        reached_are_present(p@);
        ssa_reaches_the_same(p@);
        distinct_labels_bound(ir_flow::reached(p@));
        if normal_laws::sequential(p@) {
            normal_laws::normal_form_is_strict(p@);
        }
    }
    let order = definition_order(p, &ids);
    let wanted = required_block_params(p, &ids);
    proof {
        let ws = wanted_lists(wanted@);
        assert forall|i: int| 0 <= i < ids@.len() implies (#[trigger] ws[i]).to_set()
            == ir_flow::required(p@.blocks, ir_flow::reached(p@)[i]) by {
            assert(ir_vars::names(wanted@[i]@) == ws[i].to_set());
        }
        own_tables_give_ssa(p@, ws);
    }
    let ssa = add_ssa_params(p, &ids, &wanted, &order);
    let numbered = renumber_blocks(&ssa);
    assert(numbered@.blocks.len() == numbered.blocks@.len());
    let q = rename_vars(&numbered)?;
    assert(normal_form(p@) == Some(q@));
    validate_strict_ssa_program(&q)?;
    Ok(q)
}

} // verus!
