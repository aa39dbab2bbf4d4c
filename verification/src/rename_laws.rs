//! What becomes of a value when the variables that it is computed from get other
//! names.
use crate::effect::{DynamicPathV, EffectSite};
use crate::eval;
use crate::ir::{EvalRequestV, ExprV, InstrV, MatchArmV, PromptRefV, TerminatorV};
use crate::ir_normalize;
use crate::ir_vars;
use crate::json;
use crate::json::Fields;
use crate::machine;
use vstd::prelude::*;

verus! {

/// Whether an environment gives the new names of some variables the values that
/// another gives the variables.
pub open spec fn follows(
    vars: Set<Seq<char>>,
    m: Map<Seq<char>, Seq<char>>,
    a: Fields,
    b: Fields,
) -> bool {
    forall|x: Seq<char>| #[trigger]
        vars.contains(x) ==> m.contains_key(x) && json::lookup(b, m[x]) == json::lookup(a, x)
}

/// An expression with other names for its variables has the same value, where the
/// variables have the same values under their new names.
#[verifier::rlimit(60)]
#[verifier::spinoff_prover]
pub proof fn renamed_expressions_keep_their_value(
    e: ExprV,
    m: Map<Seq<char>, Seq<char>>,
    a: Fields,
    b: Fields,
)
    requires
        follows(ir_vars::expr_vars(e), m, a, b),
    ensures
        ir_normalize::renamed_expr(e, m) is Some,
        eval::eval(a, e) is Ok ==> eval::eval(b, ir_normalize::renamed_expr(e, m)->0) == eval::eval(
            a,
            e,
        ),
    decreases e,
{
    let all = ir_vars::expr_vars(e);
    match e {
        ExprV::Value(_) => {},
        ExprV::Var(x) => {
            assert(all.contains(x));
        },
        ExprV::Field { base, .. } => {
            assert(all.contains(base));
        },
        ExprV::FieldOr { base, default, .. } => {
            assert(all.contains(base));
            assert(ir_vars::expr_vars(*default).subset_of(all));
            renamed_expressions_keep_their_value(*default, m, a, b);
        },
        ExprV::StringOr { value, default } => {
            assert(ir_vars::expr_vars(*value).subset_of(all));
            renamed_expressions_keep_their_value(*value, m, a, b);
            assert(ir_vars::expr_vars(*default).subset_of(all));
            renamed_expressions_keep_their_value(*default, m, a, b);
        },
        ExprV::If { cond, then_value, else_value } => {
            assert(ir_vars::expr_vars(*cond).subset_of(all));
            renamed_expressions_keep_their_value(*cond, m, a, b);
            assert(ir_vars::expr_vars(*then_value).subset_of(all));
            renamed_expressions_keep_their_value(*then_value, m, a, b);
            assert(ir_vars::expr_vars(*else_value).subset_of(all));
            renamed_expressions_keep_their_value(*else_value, m, a, b);
        },
        ExprV::Index { base, index } => {
            assert(all.contains(base));
            assert(ir_vars::expr_vars(*index).subset_of(all));
            renamed_expressions_keep_their_value(*index, m, a, b);
        },
        ExprV::Len { base } => {
            assert(all.contains(base));
        },
        ExprV::IsEmpty { base } => {
            assert(all.contains(base));
        },
        ExprV::Eq { left, right } => {
            assert(ir_vars::expr_vars(*left).subset_of(all));
            renamed_expressions_keep_their_value(*left, m, a, b);
            assert(ir_vars::expr_vars(*right).subset_of(all));
            renamed_expressions_keep_their_value(*right, m, a, b);
        },
        ExprV::Lt { left, right } => {
            assert(ir_vars::expr_vars(*left).subset_of(all));
            renamed_expressions_keep_their_value(*left, m, a, b);
            assert(ir_vars::expr_vars(*right).subset_of(all));
            renamed_expressions_keep_their_value(*right, m, a, b);
        },
        ExprV::Or { left, right } => {
            assert(ir_vars::expr_vars(*left).subset_of(all));
            renamed_expressions_keep_their_value(*left, m, a, b);
            assert(ir_vars::expr_vars(*right).subset_of(all));
            renamed_expressions_keep_their_value(*right, m, a, b);
        },
        ExprV::And { left, right } => {
            assert(ir_vars::expr_vars(*left).subset_of(all));
            renamed_expressions_keep_their_value(*left, m, a, b);
            assert(ir_vars::expr_vars(*right).subset_of(all));
            renamed_expressions_keep_their_value(*right, m, a, b);
        },
        ExprV::HasPendingToolCalls { base } => {
            assert(all.contains(base));
        },
        ExprV::Add { left, right } => {
            assert(ir_vars::expr_vars(*left).subset_of(all));
            renamed_expressions_keep_their_value(*left, m, a, b);
            assert(ir_vars::expr_vars(*right).subset_of(all));
            renamed_expressions_keep_their_value(*right, m, a, b);
        },
        ExprV::Sub { left, right } => {
            assert(ir_vars::expr_vars(*left).subset_of(all));
            renamed_expressions_keep_their_value(*left, m, a, b);
            assert(ir_vars::expr_vars(*right).subset_of(all));
            renamed_expressions_keep_their_value(*right, m, a, b);
        },
        ExprV::Push { base, value } => {
            assert(all.contains(base));
            assert(ir_vars::expr_vars(*value).subset_of(all));
            renamed_expressions_keep_their_value(*value, m, a, b);
        },
        ExprV::JsonParse { value } => {
            assert(ir_vars::expr_vars(*value).subset_of(all));
            renamed_expressions_keep_their_value(*value, m, a, b);
        },
        ExprV::JsonParseOr { value, default } => {
            assert(ir_vars::expr_vars(*value).subset_of(all));
            renamed_expressions_keep_their_value(*value, m, a, b);
            assert(ir_vars::expr_vars(*default).subset_of(all));
            renamed_expressions_keep_their_value(*default, m, a, b);
        },
        ExprV::ToString { value } => {
            assert(ir_vars::expr_vars(*value).subset_of(all));
            renamed_expressions_keep_their_value(*value, m, a, b);
        },
        ExprV::Array(x) => {
            renamed_lists_keep_their_values(x, m, a, b);
        },
        ExprV::Object(x) => {
            renamed_fields_keep_their_values(x, m, a, b);
        },
        ExprV::Concat { left, right } => {
            assert(ir_vars::expr_vars(*left).subset_of(all));
            renamed_expressions_keep_their_value(*left, m, a, b);
            assert(ir_vars::expr_vars(*right).subset_of(all));
            renamed_expressions_keep_their_value(*right, m, a, b);
        },
        ExprV::SelectToolResults { history, ids } => {
            assert(all.contains(history));
            assert(ir_vars::expr_vars(*ids).subset_of(all));
            renamed_expressions_keep_their_value(*ids, m, a, b);
        },
    }
}

proof fn renamed_lists_keep_their_values(
    items: Seq<ExprV>,
    m: Map<Seq<char>, Seq<char>>,
    a: Fields,
    b: Fields,
)
    requires
        follows(ir_vars::exprs_vars(items), m, a, b),
    ensures
        ir_normalize::renamed_exprs(items, m) is Some,
        eval::eval_items(a, items) is Ok ==> eval::eval_items(
            b,
            ir_normalize::renamed_exprs(items, m)->0,
        ) == eval::eval_items(a, items),
    decreases items,
{
    if items.len() > 0 {
        let all = ir_vars::exprs_vars(items);
        let last = items[items.len() - 1];
        assert(ir_vars::exprs_vars(items.drop_last()).subset_of(all));
        assert(ir_vars::expr_vars(last).subset_of(all));
        renamed_lists_keep_their_values(items.drop_last(), m, a, b);
        renamed_expressions_keep_their_value(last, m, a, b);
        let before = ir_normalize::renamed_exprs(items.drop_last(), m)->0;
        let now = before.push(ir_normalize::renamed_expr(last, m)->0);
        assert(now.drop_last() =~= before);
    }
}

proof fn renamed_fields_keep_their_values(
    items: Seq<(Seq<char>, ExprV)>,
    m: Map<Seq<char>, Seq<char>>,
    a: Fields,
    b: Fields,
)
    requires
        follows(ir_vars::named_vars(items), m, a, b),
    ensures
        ir_normalize::renamed_named(items, m) is Some,
        eval::eval_fields(a, items) is Ok ==> eval::eval_fields(
            b,
            ir_normalize::renamed_named(items, m)->0,
        ) == eval::eval_fields(a, items),
    decreases items,
{
    if items.len() > 0 {
        let all = ir_vars::named_vars(items);
        let last = items[items.len() - 1];
        assert(ir_vars::named_vars(items.drop_last()).subset_of(all));
        assert(ir_vars::expr_vars(last.1).subset_of(all));
        renamed_fields_keep_their_values(items.drop_last(), m, a, b);
        renamed_expressions_keep_their_value(last.1, m, a, b);
        let before = ir_normalize::renamed_named(items.drop_last(), m)->0;
        let now = before.push((last.0, ir_normalize::renamed_expr(last.1, m)->0));
        assert(now.drop_last() =~= before);
    }
}

/// An instruction with other names for the variables that it reads asks for the same
/// work.
#[verifier::spinoff_prover]
pub proof fn renamed_instructions_ask_for_the_same(
    i: InstrV,
    m: Map<Seq<char>, Seq<char>>,
    a: Fields,
    b: Fields,
    hash: Seq<char>,
    site: EffectSite,
    path: DynamicPathV,
)
    requires
        follows(ir_vars::uses(i), m, a, b),
    ensures
        ir_normalize::renamed_uses(i, m) matches Some(j) && (machine::demanded(
            a,
            i,
            hash,
            site,
            path,
        ) is Ok ==> machine::demanded(b, j, hash, site, path) == machine::demanded(
            a,
            i,
            hash,
            site,
            path,
        )),
{
    let all = ir_vars::uses(i);
    match i {
        InstrV::Let { expr, .. } => {
            renamed_expressions_keep_their_value(expr, m, a, b);
        },
        InstrV::Infer { model, prompt, .. } => {
            assert(ir_vars::expr_vars(model).subset_of(all));
            assert(ir_vars::prompt_vars(prompt).subset_of(all));
            renamed_expressions_keep_their_value(model, m, a, b);
            match prompt {
                PromptRefV::Var(v) => {
                    assert(all.contains(v));
                },
                PromptRefV::PromptIrVar(v) => {
                    assert(all.contains(v));
                },
                _ => {},
            }
        },
        InstrV::Eval { request, .. } => {
            match request {
                EvalRequestV::Shell { command } => {
                    renamed_expressions_keep_their_value(command, m, a, b);
                },
                EvalRequestV::Argv { argv } => {
                    renamed_arguments_keep_their_values(argv, m, a, b);
                },
            }
        },
        InstrV::Emit { event } => {
            renamed_expressions_keep_their_value(event, m, a, b);
        },
        InstrV::Retrieve { query, .. } => {
            renamed_expressions_keep_their_value(query, m, a, b);
        },
        InstrV::Store { sink, id, item, .. } => {
            assert(ir_vars::expr_vars(sink).subset_of(all));
            assert(ir_vars::expr_vars(item).subset_of(all));
            renamed_expressions_keep_their_value(sink, m, a, b);
            renamed_expressions_keep_their_value(item, m, a, b);
            if let Some(e) = id {
                assert(ir_vars::expr_vars(e).subset_of(all));
                renamed_expressions_keep_their_value(e, m, a, b);
            }
        },
        InstrV::Tool { arguments, .. } => {
            renamed_expressions_keep_their_value(arguments, m, a, b);
        },
    }
}

proof fn renamed_arguments_keep_their_values(
    argv: Seq<ExprV>,
    m: Map<Seq<char>, Seq<char>>,
    a: Fields,
    b: Fields,
)
    requires
        follows(ir_vars::exprs_vars(argv), m, a, b),
    ensures
        ir_normalize::renamed_exprs(argv, m) matches Some(now) && now.len() == argv.len() && (
        machine::argv_values(a, argv, argv.len()) is Ok ==> machine::argv_values(b, now, now.len())
            == machine::argv_values(a, argv, argv.len())),
    decreases argv.len(),
{
    if argv.len() > 0 {
        let all = ir_vars::exprs_vars(argv);
        let less = argv.drop_last();
        let last = argv[argv.len() - 1];
        assert(ir_vars::exprs_vars(less).subset_of(all));
        assert(ir_vars::expr_vars(last).subset_of(all));
        renamed_arguments_keep_their_values(less, m, a, b);
        renamed_expressions_keep_their_value(last, m, a, b);
        let before = ir_normalize::renamed_exprs(less, m)->0;
        let now = before.push(ir_normalize::renamed_expr(last, m)->0);
        assert(ir_normalize::renamed_exprs(argv, m) == Some(now));
        first_arguments(a, argv, less, less.len());
        first_arguments(b, now, before, before.len());
    }
}

proof fn first_arguments(env: Fields, argv: Seq<ExprV>, less: Seq<ExprV>, n: nat)
    requires
        n <= less.len(),
        less.len() <= argv.len(),
        forall|k: int| 0 <= k < less.len() ==> #[trigger] less[k] == argv[k],
    ensures
        machine::argv_values(env, argv, n) == machine::argv_values(env, less, n),
    decreases n,
{
    if n > 0 {
        first_arguments(env, argv, less, (n - 1) as nat);
        assert(less[n - 1] == argv[n - 1]);
    }
}

/// A terminator with other names for its variables goes where it went: each branch and
/// each arm keeps its block and its pattern, and its own arguments under their new names.
pub proof fn renamed_terminators_go_the_same_way(t: TerminatorV, m: Map<Seq<char>, Seq<char>>)
    ensures
        ir_normalize::renamed_terminator(t, m) matches Some(u) ==> match (t, u) {
            (TerminatorV::Goto { block, args }, TerminatorV::Goto { block: b, args: a }) => b
                == block && ir_normalize::renamed_exprs(args, m) == Some(a),
            (
                TerminatorV::If { cond, then_block, then_args, else_block, else_args },
                TerminatorV::If { cond: c, then_block: x, then_args: p, else_block: y, else_args: q },
            ) => x == then_block && y == else_block && ir_normalize::renamed_expr(cond, m) == Some(c)
                && ir_normalize::renamed_exprs(then_args, m) == Some(p)
                && ir_normalize::renamed_exprs(else_args, m) == Some(q),
            (
                TerminatorV::Match { value, arms, default, default_args },
                TerminatorV::Match { value: v, arms: l, default: d, default_args: a },
            ) => {
                &&& ir_normalize::renamed_expr(value, m) == Some(v)
                &&& d == default
                &&& ir_normalize::renamed_exprs(default_args, m) == Some(a)
                &&& l.len() == arms.len()
                &&& forall|i: int|
                    0 <= i < l.len() ==> (#[trigger] l[i]).pattern == arms[i].pattern && l[i].block
                        == arms[i].block && ir_normalize::renamed_exprs(arms[i].args, m) == Some(
                        l[i].args,
                    )
            },
            (TerminatorV::Return { value }, TerminatorV::Return { value: v }) =>
                ir_normalize::renamed_expr(value, m) == Some(v),
            (TerminatorV::Par { branches, join }, TerminatorV::Par { branches: b, join: j }) => b
                == branches && j == join,
            _ => false,
        },
{
    if let TerminatorV::Match { arms, .. } = t {
        renamed_arms_stay(arms, m);
    }
}

proof fn renamed_arms_stay(arms: Seq<MatchArmV>, m: Map<Seq<char>, Seq<char>>)
    ensures
        ir_normalize::renamed_arms(arms, m) matches Some(l) ==> l.len() == arms.len() && forall|
            i: int,
        |
            0 <= i < l.len() ==> (#[trigger] l[i]).pattern == arms[i].pattern && l[i].block
                == arms[i].block && ir_normalize::renamed_exprs(arms[i].args, m) == Some(l[i].args),
    decreases arms.len(),
{
    if arms.len() > 0 {
        renamed_arms_stay(arms.drop_last(), m);
    }
}

/// An output gets its new name and nothing else changes; an event has none to get.
pub proof fn renamed_outputs_change_nothing_else(i: InstrV, v: Seq<char>)
    ensures
        ir_vars::uses(ir_normalize::with_out(i, v)) == ir_vars::uses(i),
        i is Emit ==> ir_normalize::with_out(i, v) == i,
        i !is Emit ==> ir_vars::defines(ir_normalize::with_out(i, v)) == Some(v),
        ir_vars::defines(i) matches Some(o) ==> ir_normalize::with_out(
            ir_normalize::with_out(i, v),
            o,
        ) == i,
{
}

} // verus!
