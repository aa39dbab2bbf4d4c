//! Which variables the parts of a program read and define, and where control
//! goes.
use crate::ir;
use crate::ir::{
    Block, BlockId, BlockV, EvalRequest, EvalRequestV, Expr, ExprV, Instr, InstrV, PromptRef,
    PromptRefV, Terminator, TerminatorV, Var,
};
use crate::op;
use vstd::prelude::*;

verus! {

/// The set of texts in a list of strings.
pub open spec fn names(list: Seq<String>) -> Set<Seq<char>> {
    op::texts(list).to_set()
}

/// No text occurs twice.
pub open spec fn distinct(list: Seq<String>) -> bool {
    op::texts(list).no_duplicates()
}

/// Whether a list of strings holds a text.
pub fn has_name(list: &Vec<String>, name: &String) -> (r: bool)
    ensures
        r == names(list@).contains(name@),
{
    let mut i: usize = 0;
    while i < list.len()
        invariant
            i <= list@.len(),
            forall|j: int| 0 <= j < i ==> (#[trigger] list@[j])@ != name@,
        decreases list@.len() - i,
    {
        if list[i] == *name {
            assert(op::texts(list@)[i as int] == name@);
            return true;
        }
        i += 1;
    }
    assert(!op::texts(list@).contains(name@)) by {
        if op::texts(list@).contains(name@) {
            let k = choose|k: int|
                0 <= k < op::texts(list@).len() && op::texts(list@)[k] == name@;
            assert(list@[k]@ == name@);
        }
    }
    false
}

/// Adds a name that the list does not hold yet.
pub fn insert_name(list: &mut Vec<String>, name: &String)
    requires
        distinct(old(list)@),
    ensures
        distinct(final(list)@),
        names(final(list)@) == names(old(list)@).insert(name@),
        names(old(list)@).contains(name@) ==> op::texts(final(list)@) == op::texts(old(list)@),
        !names(old(list)@).contains(name@) ==> op::texts(final(list)@) == op::texts(
            old(list)@,
        ).push(name@),
{
    let ghost before = op::texts(list@);
    if !has_name(list, name) {
        let owned = name.clone();
        list.push(owned);
        assert(op::texts(list@) =~= before.push(name@));
        assert(names(list@) =~= before.to_set().insert(name@)) by {
            assert(before.push(name@)[before.len() as int] == name@);
            assert forall|x: Seq<char>| before.contains(x) implies before.push(name@).contains(x) by {
                let k = choose|k: int| 0 <= k < before.len() && before[k] == x;
                assert(before.push(name@)[k] == x);
            }
            assert forall|x: Seq<char>|
                before.push(name@).contains(x) && x != name@ implies before.contains(x) by {
                let k = choose|k: int|
                    0 <= k < before.push(name@).len() && before.push(name@)[k] == x;
                assert(before[k] == x);
            }
        }
    } else {
        assert(names(list@) =~= before.to_set().insert(name@));
    }
}

/// The variables that an expression reads.
pub open spec fn expr_vars(e: ExprV) -> Set<Seq<char>>
    decreases e,
{
    match e {
        ExprV::Value(_) => Set::empty(),
        ExprV::Var(x) => set![x],
        ExprV::Field { base, .. } => set![base],
        ExprV::FieldOr { base, default, .. } => set![base].union(expr_vars(*default)),
        ExprV::StringOr { value, default } => expr_vars(*value).union(expr_vars(*default)),
        ExprV::If {
            cond,
            then_value,
            else_value,
        } => expr_vars(*cond).union(expr_vars(*then_value)).union(expr_vars(*else_value)),
        ExprV::Index { base, index } => set![base].union(expr_vars(*index)),
        ExprV::Len { base } => set![base],
        ExprV::IsEmpty { base } => set![base],
        ExprV::Eq { left, right } => expr_vars(*left).union(expr_vars(*right)),
        ExprV::Lt { left, right } => expr_vars(*left).union(expr_vars(*right)),
        ExprV::Or { left, right } => expr_vars(*left).union(expr_vars(*right)),
        ExprV::And { left, right } => expr_vars(*left).union(expr_vars(*right)),
        ExprV::HasPendingToolCalls { base } => set![base],
        ExprV::Add { left, right } => expr_vars(*left).union(expr_vars(*right)),
        ExprV::Sub { left, right } => expr_vars(*left).union(expr_vars(*right)),
        ExprV::Push { base, value } => set![base].union(expr_vars(*value)),
        ExprV::JsonParse { value } => expr_vars(*value),
        ExprV::JsonParseOr { value, default } => expr_vars(*value).union(expr_vars(*default)),
        ExprV::ToString { value } => expr_vars(*value),
        ExprV::Array(x) => exprs_vars(x),
        ExprV::Object(x) => named_vars(x),
        ExprV::Concat { left, right } => expr_vars(*left).union(expr_vars(*right)),
        ExprV::SelectToolResults { history, ids } => set![history].union(expr_vars(*ids)),
    }
}

/// The variables that a list of expressions reads.
pub open spec fn exprs_vars(items: Seq<ExprV>) -> Set<Seq<char>>
    decreases items,
{
    if items.len() == 0 {
        Set::empty()
    } else {
        exprs_vars(items.drop_last()).union(expr_vars(items[items.len() - 1]))
    }
}

/// The variables that a list of named expressions reads.
pub open spec fn named_vars(items: Seq<(Seq<char>, ExprV)>) -> Set<Seq<char>>
    decreases items,
{
    if items.len() == 0 {
        Set::empty()
    } else {
        named_vars(items.drop_last()).union(expr_vars(items[items.len() - 1].1))
    }
}

/// The variables that a prompt reference reads.
pub open spec fn prompt_vars(p: PromptRefV) -> Set<Seq<char>> {
    match p {
        PromptRefV::Var(v) => set![v],
        PromptRefV::PromptIrVar(v) => set![v],
        _ => Set::empty(),
    }
}

/// The variables that an evaluation request reads.
pub open spec fn request_vars(r: EvalRequestV) -> Set<Seq<char>> {
    match r {
        EvalRequestV::Shell { command } => expr_vars(command),
        EvalRequestV::Argv { argv } => exprs_vars(argv),
    }
}

/// The variables that an instruction reads.
pub open spec fn uses(i: InstrV) -> Set<Seq<char>> {
    match i {
        InstrV::Let { expr, .. } => expr_vars(expr),
        InstrV::Infer { model, prompt, .. } => expr_vars(model).union(prompt_vars(prompt)),
        InstrV::Eval { request, .. } => request_vars(request),
        InstrV::Emit { event } => expr_vars(event),
        InstrV::Retrieve { query, .. } => expr_vars(query),
        InstrV::Store { sink, id, item, .. } => expr_vars(sink).union(
            match id {
                Some(e) => expr_vars(e),
                None => Set::empty(),
            },
        ).union(expr_vars(item)),
        InstrV::Tool { arguments, .. } => expr_vars(arguments),
    }
}

/// The variable that an instruction defines.
pub open spec fn defines(i: InstrV) -> Option<Seq<char>> {
    match i {
        InstrV::Let { out, .. } => Some(out),
        InstrV::Infer { out, .. } => Some(out),
        InstrV::Eval { out, .. } => Some(out),
        InstrV::Emit { .. } => None,
        InstrV::Retrieve { out, .. } => Some(out),
        InstrV::Store { out, .. } => Some(out),
        InstrV::Tool { out, .. } => Some(out),
    }
}

/// The variables that decide where a terminator goes.
pub open spec fn control_uses(t: TerminatorV) -> Set<Seq<char>> {
    match t {
        TerminatorV::If { cond, .. } => expr_vars(cond),
        TerminatorV::Match { value, .. } => expr_vars(value),
        TerminatorV::Return { value } => expr_vars(value),
        _ => Set::empty(),
    }
}

/// The variables that the arguments of some arms read.
pub open spec fn arms_vars(arms: Seq<ir::MatchArmV>) -> Set<Seq<char>>
    decreases arms.len(),
{
    if arms.len() == 0 {
        Set::empty()
    } else {
        arms_vars(arms.drop_last()).union(exprs_vars(arms.last().args))
    }
}

/// All variables that a terminator reads.
pub open spec fn value_uses(t: TerminatorV) -> Set<Seq<char>> {
    match t {
        TerminatorV::Goto { args, .. } => exprs_vars(args),
        TerminatorV::If { cond, then_args, else_args, .. } => expr_vars(cond).union(
            exprs_vars(then_args),
        ).union(exprs_vars(else_args)),
        TerminatorV::Match { value, arms, default_args, .. } => expr_vars(value).union(
            arms_vars(arms),
        ).union(exprs_vars(default_args)),
        TerminatorV::Return { value } => expr_vars(value),
        TerminatorV::Par { .. } => Set::empty(),
    }
}

/// An edge of the control flow: a target and the arguments that it gets.
pub type Edge = (u32, Seq<ExprV>);

/// The edges that leave a terminator.
pub open spec fn edges(t: TerminatorV) -> Seq<Edge> {
    match t {
        TerminatorV::Goto { block, args } => seq![(block, args)],
        TerminatorV::If { then_block, then_args, else_block, else_args, .. } => seq![
            (then_block, then_args),
            (else_block, else_args),
        ],
        TerminatorV::Match { arms, default, default_args, .. } => {
            let listed = Seq::new(arms.len(), |i: int| (arms[i].block, arms[i].args));
            match default {
                Some(d) => listed.push((d, default_args)),
                None => listed,
            }
        },
        TerminatorV::Return { .. } => Seq::empty(),
        TerminatorV::Par { branches, join } => Seq::new(
            branches.len(),
            |i: int| (branches[i], Seq::<ExprV>::empty()),
        ).push((join, Seq::empty())),
    }
}

/// The labels that a terminator may go to.
pub open spec fn successors(t: TerminatorV) -> Seq<u32> {
    Seq::new(edges(t).len(), |i: int| edges(t)[i].0)
}

/// Adds the variables that an expression reads.
pub fn collect_expr_vars(e: &Expr, out: &mut Vec<String>)
    requires
        distinct(old(out)@),
    ensures
        distinct(final(out)@),
        names(final(out)@) == names(old(out)@).union(expr_vars(e@)),
    decreases e,
{
    let ghost before = names(out@);
    match e {
        Expr::Value(_) => {},
        Expr::Var(x) => {
            insert_name(out, &x.0);
        },
        Expr::Field { base, .. } => {
            insert_name(out, &base.0);
        },
        Expr::FieldOr { base, default, .. } => {
            insert_name(out, &base.0);
            collect_expr_vars(default, out);
        },
        Expr::StringOr { value, default } => {
            collect_expr_vars(value, out);
            collect_expr_vars(default, out);
        },
        Expr::If { cond, then_value, else_value } => {
            collect_expr_vars(cond, out);
            collect_expr_vars(then_value, out);
            collect_expr_vars(else_value, out);
        },
        Expr::Index { base, index } => {
            insert_name(out, &base.0);
            collect_expr_vars(index, out);
        },
        Expr::Len { base } => {
            insert_name(out, &base.0);
        },
        Expr::IsEmpty { base } => {
            insert_name(out, &base.0);
        },
        Expr::Eq { left, right } => {
            collect_expr_vars(left, out);
            collect_expr_vars(right, out);
        },
        Expr::Lt { left, right } => {
            collect_expr_vars(left, out);
            collect_expr_vars(right, out);
        },
        Expr::Or { left, right } => {
            collect_expr_vars(left, out);
            collect_expr_vars(right, out);
        },
        Expr::And { left, right } => {
            collect_expr_vars(left, out);
            collect_expr_vars(right, out);
        },
        Expr::HasPendingToolCalls { base } => {
            insert_name(out, &base.0);
        },
        Expr::Add { left, right } => {
            collect_expr_vars(left, out);
            collect_expr_vars(right, out);
        },
        Expr::Sub { left, right } => {
            collect_expr_vars(left, out);
            collect_expr_vars(right, out);
        },
        Expr::Push { base, value } => {
            insert_name(out, &base.0);
            collect_expr_vars(value, out);
        },
        Expr::JsonParse { value } => {
            collect_expr_vars(value, out);
        },
        Expr::JsonParseOr { value, default } => {
            collect_expr_vars(value, out);
            collect_expr_vars(default, out);
        },
        Expr::ToString { value } => {
            collect_expr_vars(value, out);
        },
        Expr::Array(items) => {
            proof {
                ir::expr_view_parts(*e);
            }
            let ghost es = ir::exprs(items@);
            let mut i: usize = 0;
            assert(es.take(0) =~= Seq::empty());
            assert(before.union(Set::empty()) =~= before);
            while i < items.len()
                invariant
                    i <= items@.len(),
                    decreases_to!(e => items@),
                    es == ir::exprs(items@),
                    distinct(out@),
                    names(out@) == before.union(exprs_vars(es.take(i as int))),
                decreases items@.len() - i,
            {
                collect_expr_vars(&items[i], out);
                assert(es.take(i + 1).drop_last() =~= es.take(i as int));
                assert(names(out@) =~= before.union(exprs_vars(es.take(i + 1))));
                i += 1;
            }
            assert(es.take(i as int) =~= es);
        },
        Expr::Object(items) => {
            proof {
                ir::expr_view_parts(*e);
            }
            let ghost es = ir::named_exprs(items@);
            let mut i: usize = 0;
            assert(es.take(0) =~= Seq::empty());
            assert(before.union(Set::empty()) =~= before);
            while i < items.len()
                invariant
                    i <= items@.len(),
                    decreases_to!(e => items@),
                    es == ir::named_exprs(items@),
                    distinct(out@),
                    names(out@) == before.union(named_vars(es.take(i as int))),
                decreases items@.len() - i,
            {
                collect_expr_vars(&items[i].1, out);
                assert(es.take(i + 1).drop_last() =~= es.take(i as int));
                assert(names(out@) =~= before.union(named_vars(es.take(i + 1))));
                i += 1;
            }
            assert(es.take(i as int) =~= es);
        },
        Expr::Concat { left, right } => {
            collect_expr_vars(left, out);
            collect_expr_vars(right, out);
        },
        Expr::SelectToolResults { history, ids } => {
            insert_name(out, &history.0);
            collect_expr_vars(ids, out);
        },
    }
    assert(names(out@) =~= before.union(expr_vars(e@)));
}

/// Adds the variables that some expressions read.
pub fn collect_exprs(items: &Vec<Expr>, out: &mut Vec<String>)
    requires
        distinct(old(out)@),
    ensures
        distinct(final(out)@),
        names(final(out)@) == names(old(out)@).union(exprs_vars(ir::exprs(items@))),
{
    let ghost before = names(out@);
    let ghost es = ir::exprs(items@);
    let mut i: usize = 0;
    assert(es.take(0) =~= Seq::empty());
    assert(before.union(Set::empty()) =~= before);
    while i < items.len()
        invariant
            i <= items@.len(),
            es == ir::exprs(items@),
            distinct(out@),
            names(out@) == before.union(exprs_vars(es.take(i as int))),
        decreases items@.len() - i,
    {
        collect_expr_vars(&items[i], out);
        assert(es.take(i + 1).drop_last() =~= es.take(i as int));
        assert(names(out@) =~= before.union(exprs_vars(es.take(i + 1))));
        i += 1;
    }
    assert(es.take(i as int) =~= es);
}

/// Adds the variables that a prompt reference reads.
pub fn collect_prompt_vars(p: &PromptRef, out: &mut Vec<String>)
    requires
        distinct(old(out)@),
    ensures
        distinct(final(out)@),
        names(final(out)@) == names(old(out)@).union(prompt_vars(p@)),
{
    let ghost before = names(out@);
    match p {
        PromptRef::Var(v) => {
            insert_name(out, &v.0);
        },
        PromptRef::PromptIrVar(v) => {
            insert_name(out, &v.0);
        },
        _ => {},
    }
    assert(names(out@) =~= before.union(prompt_vars(p@)));
}

/// Adds the variables that an evaluation request reads.
pub fn collect_eval_request_vars(r: &EvalRequest, out: &mut Vec<String>)
    requires
        distinct(old(out)@),
    ensures
        distinct(final(out)@),
        names(final(out)@) == names(old(out)@).union(request_vars(r@)),
{
    match r {
        EvalRequest::Shell { command } => collect_expr_vars(command, out),
        EvalRequest::Argv { argv } => collect_exprs(argv, out),
    }
}

/// The variables that an instruction reads.
pub fn instr_uses(i: &Instr) -> (r: Vec<String>)
    ensures
        distinct(r@),
        names(r@) == uses(i@),
{
    let mut out: Vec<String> = Vec::new();
    assert(names(out@) =~= Set::empty());
    match i {
        Instr::Let { expr, .. } => collect_expr_vars(expr, &mut out),
        Instr::Infer { model, prompt, .. } => {
            collect_expr_vars(model, &mut out);
            collect_prompt_vars(prompt, &mut out);
        },
        Instr::Eval { request, .. } => collect_eval_request_vars(request, &mut out),
        Instr::Emit { event } => collect_expr_vars(event, &mut out),
        Instr::Retrieve { query, .. } => collect_expr_vars(query, &mut out),
        Instr::Store { sink, id, item, .. } => {
            collect_expr_vars(sink, &mut out);
            if let Some(id) = id {
                collect_expr_vars(id, &mut out);
            }
            collect_expr_vars(item, &mut out);
        },
        Instr::Tool { arguments, .. } => collect_expr_vars(arguments, &mut out),
    }
    assert(names(out@) =~= uses(i@));
    out
}

/// The variable that an instruction defines.
pub fn instr_out_public(i: &Instr) -> (r: Option<&Var>)
    ensures
        match r {
            Some(v) => defines(i@) == Some(v.0@),
            None => defines(i@) is None,
        },
{
    match i {
        Instr::Let { out, .. } => Some(out),
        Instr::Infer { out, .. } => Some(out),
        Instr::Eval { out, .. } => Some(out),
        Instr::Emit { .. } => None,
        Instr::Retrieve { out, .. } => Some(out),
        Instr::Store { out, .. } => Some(out),
        Instr::Tool { out, .. } => Some(out),
    }
}

/// The variables that decide where a terminator goes.
pub fn terminator_control_uses(t: &Terminator) -> (r: Vec<String>)
    ensures
        distinct(r@),
        names(r@) == control_uses(t@),
{
    let mut out: Vec<String> = Vec::new();
    assert(names(out@) =~= Set::empty());
    match t {
        Terminator::If { cond, .. } => collect_expr_vars(cond, &mut out),
        Terminator::Match { value, .. } => collect_expr_vars(value, &mut out),
        Terminator::Return { value } => collect_expr_vars(value, &mut out),
        Terminator::Goto { .. } => {},
        Terminator::Par { .. } => {},
    }
    assert(names(out@) =~= control_uses(t@));
    out
}

/// All variables that a terminator reads.
pub fn terminator_value_uses(t: &Terminator) -> (r: Vec<String>)
    ensures
        distinct(r@),
        names(r@) == value_uses(t@),
{
    let mut out: Vec<String> = Vec::new();
    assert(names(out@) =~= Set::empty());
    match t {
        Terminator::Goto { args, .. } => collect_exprs(args, &mut out),
        Terminator::If { cond, then_args, else_args, .. } => {
            collect_expr_vars(cond, &mut out);
            collect_exprs(then_args, &mut out);
            collect_exprs(else_args, &mut out);
        },
        Terminator::Match { value, arms, default_args, .. } => {
            collect_expr_vars(value, &mut out);
            let ghost before = names(out@);
            let ghost all = ir::match_arms(arms@);
            let mut i: usize = 0;
            assert(all.take(0) =~= Seq::empty());
            assert(before.union(Set::empty()) =~= before);
            while i < arms.len()
                invariant
                    i <= arms@.len(),
                    all == ir::match_arms(arms@),
                    distinct(out@),
                    names(out@) == before.union(arms_vars(all.take(i as int))),
                decreases arms@.len() - i,
            {
                collect_exprs(&arms[i].args, &mut out);
                assert(all.take(i + 1).drop_last() =~= all.take(i as int));
                assert(names(out@) =~= before.union(arms_vars(all.take(i + 1))));
                i += 1;
            }
            assert(all.take(i as int) =~= all);
            collect_exprs(default_args, &mut out);
        },
        Terminator::Return { value } => collect_expr_vars(value, &mut out),
        Terminator::Par { .. } => {},
    }
    assert(names(out@) =~= value_uses(t@));
    out
}

/// The labels that a terminator may go to.
pub fn terminator_successor_ids(t: &Terminator) -> (r: Vec<BlockId>)
    ensures
        ir::labels(r@) == successors(t@),
{
    let mut out: Vec<BlockId> = Vec::new();
    match t {
        Terminator::Goto { block, .. } => {
            out.push(*block);
        },
        Terminator::If { then_block, else_block, .. } => {
            out.push(*then_block);
            out.push(*else_block);
        },
        Terminator::Match { arms, default, .. } => {
            let mut i: usize = 0;
            while i < arms.len()
                invariant
                    i <= arms@.len(),
                    out@.len() == i,
                    forall|j: int| 0 <= j < i ==> (#[trigger] out@[j]) == arms@[j].block,
                decreases arms@.len() - i,
            {
                out.push(arms[i].block);
                i += 1;
            }
            if let Some(d) = default {
                out.push(*d);
            }
        },
        Terminator::Return { .. } => {},
        Terminator::Par { branches, join } => {
            let mut i: usize = 0;
            while i < branches.len()
                invariant
                    i <= branches@.len(),
                    out@.len() == i,
                    forall|j: int| 0 <= j < i ==> (#[trigger] out@[j]) == branches@[j],
                decreases branches@.len() - i,
            {
                out.push(branches[i]);
                i += 1;
            }
            out.push(*join);
        },
    }
    assert(ir::labels(out@) =~= successors(t@));
    out
}

/// The targets of a terminator with the number of arguments that each gets.
pub open spec fn arities(t: TerminatorV) -> Seq<(u32, nat)> {
    Seq::new(edges(t).len(), |i: int| (edges(t)[i].0, edges(t)[i].1.len()))
}

/// A list of targets and argument counts, as a model.
pub open spec fn counted(list: Seq<(BlockId, usize)>) -> Seq<(u32, nat)> {
    Seq::new(list.len(), |i: int| (list[i].0.0, list[i].1 as nat))
}

/// The targets of a terminator with the number of arguments that each gets.
pub fn terminator_edges_with_args(t: &Terminator) -> (r: Vec<(BlockId, usize)>)
    ensures
        counted(r@) == arities(t@),
{
    let mut out: Vec<(BlockId, usize)> = Vec::new();
    match t {
        Terminator::Goto { block, args } => {
            out.push((*block, args.len()));
        },
        Terminator::If { then_block, then_args, else_block, else_args, .. } => {
            out.push((*then_block, then_args.len()));
            out.push((*else_block, else_args.len()));
        },
        Terminator::Match { arms, default, default_args, .. } => {
            let mut i: usize = 0;
            while i < arms.len()
                invariant
                    i <= arms@.len(),
                    out@.len() == i,
                    forall|j: int|
                        0 <= j < i ==> (#[trigger] out@[j]).0 == arms@[j].block && out@[j].1
                            == arms@[j].args@.len(),
                decreases arms@.len() - i,
            {
                out.push((arms[i].block, arms[i].args.len()));
                i += 1;
            }
            if let Some(d) = default {
                out.push((*d, default_args.len()));
            }
        },
        Terminator::Return { .. } => {},
        Terminator::Par { branches, join } => {
            let mut i: usize = 0;
            while i < branches.len()
                invariant
                    i <= branches@.len(),
                    out@.len() == i,
                    forall|j: int|
                        0 <= j < i ==> (#[trigger] out@[j]).0 == branches@[j] && out@[j].1 == 0,
                decreases branches@.len() - i,
            {
                out.push((branches[i], 0));
                i += 1;
            }
            out.push((*join, 0));
        },
    }
    assert(counted(out@) =~= arities(t@));
    out
}

/// The variables that the first `n` instructions of a block define, and its
/// parameters.
pub open spec fn defined_by(b: BlockV, n: int) -> Set<Seq<char>>
    decreases n,
{
    if n <= 0 {
        b.params.to_set()
    } else {
        match defines(b.instructions[n - 1]) {
            Some(v) => defined_by(b, n - 1).insert(v),
            None => defined_by(b, n - 1),
        }
    }
}

/// The variables that the first `n` instructions read before the block
/// defines them.
pub open spec fn free_before(b: BlockV, n: int) -> Set<Seq<char>>
    decreases n,
{
    if n <= 0 {
        Set::empty()
    } else {
        free_before(b, n - 1).union(uses(b.instructions[n - 1]).difference(defined_by(b, n - 1)))
    }
}

/// The parameters of a block and what its instructions define.
pub open spec fn all_defined(b: BlockV) -> Set<Seq<char>> {
    defined_by(b, b.instructions.len() as int)
}

/// The variables that a block reads before it defines them.
pub open spec fn free_vars(b: BlockV) -> Set<Seq<char>> {
    free_before(b, b.instructions.len() as int).union(
        control_uses(b.terminator).union(value_uses(b.terminator)).difference(all_defined(b)),
    )
}

/// The names of a list of variables.
pub fn var_strings(list: &Vec<Var>) -> (r: Vec<String>)
    ensures
        distinct(r@),
        names(r@) == ir::var_names(list@).to_set(),
{
    let mut out: Vec<String> = Vec::new();
    let ghost ns = ir::var_names(list@);
    let mut i: usize = 0;
    assert(names(out@) =~= ns.take(0).to_set());
    while i < list.len()
        invariant
            i <= list@.len(),
            ns == ir::var_names(list@),
            distinct(out@),
            names(out@) == ns.take(i as int).to_set(),
        decreases list@.len() - i,
    {
        insert_name(&mut out, &list[i].0);
        proof {
            take_to_set(ns, i as int);
        }
        i += 1;
    }
    assert(ns.take(i as int) =~= ns);
    out
}

pub proof fn take_to_set(s: Seq<Seq<char>>, i: int)
    requires
        0 <= i < s.len(),
    ensures
        s.take(i + 1).to_set() == s.take(i).to_set().insert(s[i]),
{
    let shorter = s.take(i);
    let longer = s.take(i + 1);
    assert forall|x: Seq<char>| #[trigger] longer.contains(x) implies shorter.contains(x) || x == s[i] by {
        let k = choose|k: int| 0 <= k < longer.len() && longer[k] == x;
        if k < i {
            assert(shorter[k] == x);
        }
    }
    assert forall|x: Seq<char>| #[trigger] shorter.contains(x) implies longer.contains(x) by {
        let k = choose|k: int| 0 <= k < shorter.len() && shorter[k] == x;
        assert(longer[k] == x);
    }
    assert(longer[i] == s[i]);
    assert(longer.to_set() =~= shorter.to_set().insert(s[i]));
}

/// Adds to `free` the names of `used` that are not in `defined`.
pub fn add_undefined(free: &mut Vec<String>, used: &Vec<String>, defined: &Vec<String>)
    requires
        distinct(old(free)@),
    ensures
        distinct(final(free)@),
        names(final(free)@) == names(old(free)@).union(names(used@).difference(names(defined@))),
{
    let ghost before = names(free@);
    let ghost us = op::texts(used@);
    let mut i: usize = 0;
    assert(us.take(0) =~= Seq::empty());
    assert(names(free@) =~= before.union(us.take(0).to_set().difference(names(defined@))));
    while i < used.len()
        invariant
            i <= used@.len(),
            us == op::texts(used@),
            distinct(free@),
            names(free@) == before.union(us.take(i as int).to_set().difference(names(defined@))),
        decreases used@.len() - i,
    {
        if !has_name(defined, &used[i]) {
            insert_name(free, &used[i]);
        }
        proof {
            take_to_set(us, i as int);
        }
        assert(names(free@) =~= before.union(us.take(i + 1).to_set().difference(names(defined@))));
        i += 1;
    }
    assert(us.take(i as int) =~= us);
}

/// The variables that a block reads before it defines them.
pub fn direct_free_vars(b: &Block) -> (r: Vec<String>)
    ensures
        distinct(r@),
        names(r@) == free_vars(b@),
{
    let mut defined = var_strings(&b.params);
    let mut free: Vec<String> = Vec::new();
    let mut i: usize = 0;
    assert(names(free@) =~= Set::empty());
    while i < b.instructions.len()
        invariant
            i <= b.instructions@.len(),
            distinct(defined@),
            distinct(free@),
            names(defined@) == defined_by(b@, i as int),
            names(free@) == free_before(b@, i as int),
        decreases b.instructions@.len() - i,
    {
        let used = instr_uses(&b.instructions[i]);
        add_undefined(&mut free, &used, &defined);
        if let Some(v) = instr_out_public(&b.instructions[i]) {
            insert_name(&mut defined, &v.0);
        }
        assert(b@.instructions[i as int] == b.instructions@[i as int]@);
        i += 1;
    }
    let control = terminator_control_uses(&b.terminator);
    add_undefined(&mut free, &control, &defined);
    let value = terminator_value_uses(&b.terminator);
    add_undefined(&mut free, &value, &defined);
    assert(names(free@) =~= free_vars(b@));
    free
}

/// The parameters of a block and what its instructions define.
pub fn block_definitions(b: &Block) -> (r: Vec<String>)
    ensures
        distinct(r@),
        names(r@) == all_defined(b@),
{
    let mut defined = var_strings(&b.params);
    let mut i: usize = 0;
    while i < b.instructions.len()
        invariant
            i <= b.instructions@.len(),
            distinct(defined@),
            names(defined@) == defined_by(b@, i as int),
        decreases b.instructions@.len() - i,
    {
        if let Some(v) = instr_out_public(&b.instructions[i]) {
            insert_name(&mut defined, &v.0);
        }
        assert(b@.instructions[i as int] == b.instructions@[i as int]@);
        i += 1;
    }
    defined
}

} // verus!
