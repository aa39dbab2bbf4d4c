//! What holds of every expression: which variables its value depends on, and
//! what becomes of it when they are renamed.
use crate::canon_laws;
use crate::eval;
use crate::ir::ExprV;
use crate::ir_normalize;
use crate::ir_vars;
use crate::json;
use crate::json::Fields;
use vstd::prelude::*;

verus! {

/// Whether two environments give some variables the same values, or none.
pub open spec fn agree_on(vars: Set<Seq<char>>, a: Fields, b: Fields) -> bool {
    forall|x: Seq<char>| #[trigger] vars.contains(x) ==> json::lookup(a, x) == json::lookup(b, x)
}

/// The value of an expression depends on the variables that it mentions and
/// on nothing else: environments that agree on them give it the same value,
/// or the same error.
pub proof fn values_depend_on_their_variables(e: ExprV, a: Fields, b: Fields)
    requires
        agree_on(ir_vars::expr_vars(e), a, b),
    ensures
        eval::eval(a, e) == eval::eval(b, e),
    decreases e,
{
    let all = ir_vars::expr_vars(e);
    match e {
        ExprV::Value(_) => {},
        ExprV::Var(x) => {
            assert(all.contains(x));
        },
        ExprV::Field { base, .. } => {
            assert(all.contains(base));
        },
        ExprV::FieldOr { base, default, .. } => {
            assert(all.contains(base));
            assert(ir_vars::expr_vars(*default).subset_of(all));
            values_depend_on_their_variables(*default, a, b);
        },
        ExprV::StringOr { value, default } => {
            assert(ir_vars::expr_vars(*value).subset_of(all));
            values_depend_on_their_variables(*value, a, b);
            assert(ir_vars::expr_vars(*default).subset_of(all));
            values_depend_on_their_variables(*default, a, b);
        },
        ExprV::If { cond, then_value, else_value } => {
            assert(ir_vars::expr_vars(*cond).subset_of(all));
            values_depend_on_their_variables(*cond, a, b);
            assert(ir_vars::expr_vars(*then_value).subset_of(all));
            values_depend_on_their_variables(*then_value, a, b);
            assert(ir_vars::expr_vars(*else_value).subset_of(all));
            values_depend_on_their_variables(*else_value, a, b);
        },
        ExprV::Index { base, index } => {
            assert(all.contains(base));
            assert(ir_vars::expr_vars(*index).subset_of(all));
            values_depend_on_their_variables(*index, a, b);
        },
        ExprV::Len { base } => {
            assert(all.contains(base));
        },
        ExprV::IsEmpty { base } => {
            assert(all.contains(base));
        },
        ExprV::Eq { left, right } => {
            assert(ir_vars::expr_vars(*left).subset_of(all));
            values_depend_on_their_variables(*left, a, b);
            assert(ir_vars::expr_vars(*right).subset_of(all));
            values_depend_on_their_variables(*right, a, b);
        },
        ExprV::Lt { left, right } => {
            assert(ir_vars::expr_vars(*left).subset_of(all));
            values_depend_on_their_variables(*left, a, b);
            assert(ir_vars::expr_vars(*right).subset_of(all));
            values_depend_on_their_variables(*right, a, b);
        },
        ExprV::Or { left, right } => {
            assert(ir_vars::expr_vars(*left).subset_of(all));
            values_depend_on_their_variables(*left, a, b);
            assert(ir_vars::expr_vars(*right).subset_of(all));
            values_depend_on_their_variables(*right, a, b);
        },
        ExprV::And { left, right } => {
            assert(ir_vars::expr_vars(*left).subset_of(all));
            values_depend_on_their_variables(*left, a, b);
            assert(ir_vars::expr_vars(*right).subset_of(all));
            values_depend_on_their_variables(*right, a, b);
        },
        ExprV::HasPendingToolCalls { base } => {
            assert(all.contains(base));
        },
        ExprV::Add { left, right } => {
            assert(ir_vars::expr_vars(*left).subset_of(all));
            values_depend_on_their_variables(*left, a, b);
            assert(ir_vars::expr_vars(*right).subset_of(all));
            values_depend_on_their_variables(*right, a, b);
        },
        ExprV::Sub { left, right } => {
            assert(ir_vars::expr_vars(*left).subset_of(all));
            values_depend_on_their_variables(*left, a, b);
            assert(ir_vars::expr_vars(*right).subset_of(all));
            values_depend_on_their_variables(*right, a, b);
        },
        ExprV::Push { base, value } => {
            assert(all.contains(base));
            assert(ir_vars::expr_vars(*value).subset_of(all));
            values_depend_on_their_variables(*value, a, b);
        },
        ExprV::JsonParse { value } => {
            assert(ir_vars::expr_vars(*value).subset_of(all));
            values_depend_on_their_variables(*value, a, b);
        },
        ExprV::JsonParseOr { value, default } => {
            assert(ir_vars::expr_vars(*value).subset_of(all));
            values_depend_on_their_variables(*value, a, b);
            assert(ir_vars::expr_vars(*default).subset_of(all));
            values_depend_on_their_variables(*default, a, b);
        },
        ExprV::ToString { value } => {
            assert(ir_vars::expr_vars(*value).subset_of(all));
            values_depend_on_their_variables(*value, a, b);
        },
        ExprV::Array(x) => {
            lists_depend_on_their_variables(x, a, b);
        },
        ExprV::Object(x) => {
            fields_depend_on_their_variables(x, a, b);
        },
        ExprV::Concat { left, right } => {
            assert(ir_vars::expr_vars(*left).subset_of(all));
            values_depend_on_their_variables(*left, a, b);
            assert(ir_vars::expr_vars(*right).subset_of(all));
            values_depend_on_their_variables(*right, a, b);
        },
        ExprV::SelectToolResults { history, ids } => {
            assert(all.contains(history));
            assert(ir_vars::expr_vars(*ids).subset_of(all));
            values_depend_on_their_variables(*ids, a, b);
        },
    }
}

proof fn lists_depend_on_their_variables(items: Seq<ExprV>, a: Fields, b: Fields)
    requires
        agree_on(ir_vars::exprs_vars(items), a, b),
    ensures
        eval::eval_items(a, items) == eval::eval_items(b, items),
    decreases items,
{
    if items.len() > 0 {
        let all = ir_vars::exprs_vars(items);
        assert(ir_vars::exprs_vars(items.drop_last()).subset_of(all));
        assert(ir_vars::expr_vars(items[items.len() - 1]).subset_of(all));
        lists_depend_on_their_variables(items.drop_last(), a, b);
        values_depend_on_their_variables(items[items.len() - 1], a, b);
    }
}

proof fn fields_depend_on_their_variables(items: Seq<(Seq<char>, ExprV)>, a: Fields, b: Fields)
    requires
        agree_on(ir_vars::named_vars(items), a, b),
    ensures
        eval::eval_fields(a, items) == eval::eval_fields(b, items),
    decreases items,
{
    if items.len() > 0 {
        let all = ir_vars::named_vars(items);
        assert(ir_vars::named_vars(items.drop_last()).subset_of(all));
        assert(ir_vars::expr_vars(items[items.len() - 1].1).subset_of(all));
        fields_depend_on_their_variables(items.drop_last(), a, b);
        values_depend_on_their_variables(items[items.len() - 1].1, a, b);
    }
}

/// The new names of some variables.
pub open spec fn image(vars: Set<Seq<char>>, env: Map<Seq<char>, Seq<char>>) -> Set<Seq<char>> {
    Set::new(|v: Seq<char>| exists|x: Seq<char>| #[trigger] vars.contains(x) && env[x] == v)
}

broadcast proof fn image_of_both(
    a: Set<Seq<char>>,
    b: Set<Seq<char>>,
    env: Map<Seq<char>, Seq<char>>,
)
    ensures
        #[trigger] image(a.union(b), env) == image(a, env).union(image(b, env)),
{
    let all = a.union(b);
    assert forall|v: Seq<char>| #[trigger]
        image(all, env).contains(v) == image(a, env).union(image(b, env)).contains(v) by {
        if image(a, env).contains(v) {
            let x = choose|x: Seq<char>| #[trigger] a.contains(x) && env[x] == v;
            assert(all.contains(x));
        }
        if image(b, env).contains(v) {
            let x = choose|x: Seq<char>| #[trigger] b.contains(x) && env[x] == v;
            assert(all.contains(x));
        }
        if image(all, env).contains(v) {
            let x = choose|x: Seq<char>| #[trigger] all.contains(x) && env[x] == v;
            assert(a.contains(x) || b.contains(x));
        }
    }
    assert(image(all, env) =~= image(a, env).union(image(b, env)));
}

broadcast proof fn image_of_one(x: Seq<char>, env: Map<Seq<char>, Seq<char>>)
    ensures
        #[trigger] image(set![x], env) == set![env[x]],
{
    assert(set![x].contains(x));
    assert(image(set![x], env) =~= set![env[x]]);
}

broadcast proof fn image_of_none(env: Map<Seq<char>, Seq<char>>)
    ensures
        #[trigger] image(Set::empty(), env) == Set::<Seq<char>>::empty(),
{
    assert(image(Set::empty(), env) =~= Set::empty());
}

/// An expression can be renamed exactly where every variable that it mentions
/// has a new name, and then it mentions those new names and no others.
pub proof fn renaming_maps_every_variable(e: ExprV, env: Map<Seq<char>, Seq<char>>)
    ensures
        ir_normalize::renamed_expr(e, env) is Some <==> ir_vars::expr_vars(e).subset_of(env.dom()),
        ir_normalize::renamed_expr(e, env) matches Some(x) ==> ir_vars::expr_vars(x) == image(
            ir_vars::expr_vars(e),
            env,
        ),
    decreases e,
{
    broadcast use {image_of_both, image_of_one, image_of_none};

    let all = ir_vars::expr_vars(e);
    match e {
        ExprV::Value(_) => {},
        ExprV::Var(x) => {
            assert(all.contains(x));
        },
        ExprV::Field { base, .. } => {
            assert(all.contains(base));
        },
        ExprV::FieldOr { base, default, .. } => {
            assert(all.contains(base));
            assert(ir_vars::expr_vars(*default).subset_of(all));
            renaming_maps_every_variable(*default, env);
        },
        ExprV::StringOr { value, default } => {
            assert(ir_vars::expr_vars(*value).subset_of(all));
            renaming_maps_every_variable(*value, env);
            assert(ir_vars::expr_vars(*default).subset_of(all));
            renaming_maps_every_variable(*default, env);
        },
        ExprV::If { cond, then_value, else_value } => {
            assert(ir_vars::expr_vars(*cond).subset_of(all));
            renaming_maps_every_variable(*cond, env);
            assert(ir_vars::expr_vars(*then_value).subset_of(all));
            renaming_maps_every_variable(*then_value, env);
            assert(ir_vars::expr_vars(*else_value).subset_of(all));
            renaming_maps_every_variable(*else_value, env);
        },
        ExprV::Index { base, index } => {
            assert(all.contains(base));
            assert(ir_vars::expr_vars(*index).subset_of(all));
            renaming_maps_every_variable(*index, env);
        },
        ExprV::Len { base } => {
            assert(all.contains(base));
        },
        ExprV::IsEmpty { base } => {
            assert(all.contains(base));
        },
        ExprV::Eq { left, right } => {
            assert(ir_vars::expr_vars(*left).subset_of(all));
            renaming_maps_every_variable(*left, env);
            assert(ir_vars::expr_vars(*right).subset_of(all));
            renaming_maps_every_variable(*right, env);
        },
        ExprV::Lt { left, right } => {
            assert(ir_vars::expr_vars(*left).subset_of(all));
            renaming_maps_every_variable(*left, env);
            assert(ir_vars::expr_vars(*right).subset_of(all));
            renaming_maps_every_variable(*right, env);
        },
        ExprV::Or { left, right } => {
            assert(ir_vars::expr_vars(*left).subset_of(all));
            renaming_maps_every_variable(*left, env);
            assert(ir_vars::expr_vars(*right).subset_of(all));
            renaming_maps_every_variable(*right, env);
        },
        ExprV::And { left, right } => {
            assert(ir_vars::expr_vars(*left).subset_of(all));
            renaming_maps_every_variable(*left, env);
            assert(ir_vars::expr_vars(*right).subset_of(all));
            renaming_maps_every_variable(*right, env);
        },
        ExprV::HasPendingToolCalls { base } => {
            assert(all.contains(base));
        },
        ExprV::Add { left, right } => {
            assert(ir_vars::expr_vars(*left).subset_of(all));
            renaming_maps_every_variable(*left, env);
            assert(ir_vars::expr_vars(*right).subset_of(all));
            renaming_maps_every_variable(*right, env);
        },
        ExprV::Sub { left, right } => {
            assert(ir_vars::expr_vars(*left).subset_of(all));
            renaming_maps_every_variable(*left, env);
            assert(ir_vars::expr_vars(*right).subset_of(all));
            renaming_maps_every_variable(*right, env);
        },
        ExprV::Push { base, value } => {
            assert(all.contains(base));
            assert(ir_vars::expr_vars(*value).subset_of(all));
            renaming_maps_every_variable(*value, env);
        },
        ExprV::JsonParse { value } => {
            assert(ir_vars::expr_vars(*value).subset_of(all));
            renaming_maps_every_variable(*value, env);
        },
        ExprV::JsonParseOr { value, default } => {
            assert(ir_vars::expr_vars(*value).subset_of(all));
            renaming_maps_every_variable(*value, env);
            assert(ir_vars::expr_vars(*default).subset_of(all));
            renaming_maps_every_variable(*default, env);
        },
        ExprV::ToString { value } => {
            assert(ir_vars::expr_vars(*value).subset_of(all));
            renaming_maps_every_variable(*value, env);
        },
        ExprV::Array(x) => {
            renaming_maps_lists(x, env);
        },
        ExprV::Object(x) => {
            renaming_maps_fields(x, env);
        },
        ExprV::Concat { left, right } => {
            assert(ir_vars::expr_vars(*left).subset_of(all));
            renaming_maps_every_variable(*left, env);
            assert(ir_vars::expr_vars(*right).subset_of(all));
            renaming_maps_every_variable(*right, env);
        },
        ExprV::SelectToolResults { history, ids } => {
            assert(all.contains(history));
            assert(ir_vars::expr_vars(*ids).subset_of(all));
            renaming_maps_every_variable(*ids, env);
        },
    }
}

proof fn renaming_maps_lists(items: Seq<ExprV>, env: Map<Seq<char>, Seq<char>>)
    ensures
        ir_normalize::renamed_exprs(items, env) is Some <==> ir_vars::exprs_vars(items).subset_of(
            env.dom(),
        ),
        ir_normalize::renamed_exprs(items, env) matches Some(x) ==> ir_vars::exprs_vars(x) == image(
            ir_vars::exprs_vars(items),
            env,
        ),
    decreases items,
{
    broadcast use {image_of_both, image_of_one, image_of_none};

    if items.len() > 0 {
        let all = ir_vars::exprs_vars(items);
        assert(ir_vars::exprs_vars(items.drop_last()).subset_of(all));
        assert(ir_vars::expr_vars(items[items.len() - 1]).subset_of(all));
        renaming_maps_lists(items.drop_last(), env);
        renaming_maps_every_variable(items[items.len() - 1], env);
        if let Some(x) = ir_normalize::renamed_exprs(items, env) {
            let before = ir_normalize::renamed_exprs(items.drop_last(), env)->0;
            assert(x.drop_last() =~= before);
        }
    }
}

proof fn renaming_maps_fields(items: Seq<(Seq<char>, ExprV)>, env: Map<Seq<char>, Seq<char>>)
    ensures
        ir_normalize::renamed_named(items, env) is Some <==> ir_vars::named_vars(items).subset_of(
            env.dom(),
        ),
        ir_normalize::renamed_named(items, env) matches Some(x) ==> ir_vars::named_vars(x) == image(
            ir_vars::named_vars(items),
            env,
        ),
    decreases items,
{
    broadcast use {image_of_both, image_of_one, image_of_none};

    if items.len() > 0 {
        let all = ir_vars::named_vars(items);
        assert(ir_vars::named_vars(items.drop_last()).subset_of(all));
        assert(ir_vars::expr_vars(items[items.len() - 1].1).subset_of(all));
        renaming_maps_fields(items.drop_last(), env);
        renaming_maps_every_variable(items[items.len() - 1].1, env);
        if let Some(x) = ir_normalize::renamed_named(items, env) {
            let before = ir_normalize::renamed_named(items.drop_last(), env)->0;
            assert(x.drop_last() =~= before);
        }
    }
}

/// Whether a renaming keeps some variables as they are.
pub open spec fn keeps(vars: Set<Seq<char>>, env: Map<Seq<char>, Seq<char>>) -> bool {
    forall|x: Seq<char>| #[trigger] vars.contains(x) ==> env.dom().contains(x) && env[x] == x
}

/// A renaming that keeps every variable of an expression keeps the expression.
pub proof fn idle_renaming_changes_nothing(e: ExprV, env: Map<Seq<char>, Seq<char>>)
    requires
        keeps(ir_vars::expr_vars(e), env),
    ensures
        ir_normalize::renamed_expr(e, env) == Some(e),
    decreases e,
{
    let all = ir_vars::expr_vars(e);
    match e {
        ExprV::Value(_) => {},
        ExprV::Var(x) => {
            assert(all.contains(x));
        },
        ExprV::Field { base, .. } => {
            assert(all.contains(base));
        },
        ExprV::FieldOr { base, default, .. } => {
            assert(all.contains(base));
            assert(ir_vars::expr_vars(*default).subset_of(all));
            idle_renaming_changes_nothing(*default, env);
        },
        ExprV::StringOr { value, default } => {
            assert(ir_vars::expr_vars(*value).subset_of(all));
            idle_renaming_changes_nothing(*value, env);
            assert(ir_vars::expr_vars(*default).subset_of(all));
            idle_renaming_changes_nothing(*default, env);
        },
        ExprV::If { cond, then_value, else_value } => {
            assert(ir_vars::expr_vars(*cond).subset_of(all));
            idle_renaming_changes_nothing(*cond, env);
            assert(ir_vars::expr_vars(*then_value).subset_of(all));
            idle_renaming_changes_nothing(*then_value, env);
            assert(ir_vars::expr_vars(*else_value).subset_of(all));
            idle_renaming_changes_nothing(*else_value, env);
        },
        ExprV::Index { base, index } => {
            assert(all.contains(base));
            assert(ir_vars::expr_vars(*index).subset_of(all));
            idle_renaming_changes_nothing(*index, env);
        },
        ExprV::Len { base } => {
            assert(all.contains(base));
        },
        ExprV::IsEmpty { base } => {
            assert(all.contains(base));
        },
        ExprV::Eq { left, right } => {
            assert(ir_vars::expr_vars(*left).subset_of(all));
            idle_renaming_changes_nothing(*left, env);
            assert(ir_vars::expr_vars(*right).subset_of(all));
            idle_renaming_changes_nothing(*right, env);
        },
        ExprV::Lt { left, right } => {
            assert(ir_vars::expr_vars(*left).subset_of(all));
            idle_renaming_changes_nothing(*left, env);
            assert(ir_vars::expr_vars(*right).subset_of(all));
            idle_renaming_changes_nothing(*right, env);
        },
        ExprV::Or { left, right } => {
            assert(ir_vars::expr_vars(*left).subset_of(all));
            idle_renaming_changes_nothing(*left, env);
            assert(ir_vars::expr_vars(*right).subset_of(all));
            idle_renaming_changes_nothing(*right, env);
        },
        ExprV::And { left, right } => {
            assert(ir_vars::expr_vars(*left).subset_of(all));
            idle_renaming_changes_nothing(*left, env);
            assert(ir_vars::expr_vars(*right).subset_of(all));
            idle_renaming_changes_nothing(*right, env);
        },
        ExprV::HasPendingToolCalls { base } => {
            assert(all.contains(base));
        },
        ExprV::Add { left, right } => {
            assert(ir_vars::expr_vars(*left).subset_of(all));
            idle_renaming_changes_nothing(*left, env);
            assert(ir_vars::expr_vars(*right).subset_of(all));
            idle_renaming_changes_nothing(*right, env);
        },
        ExprV::Sub { left, right } => {
            assert(ir_vars::expr_vars(*left).subset_of(all));
            idle_renaming_changes_nothing(*left, env);
            assert(ir_vars::expr_vars(*right).subset_of(all));
            idle_renaming_changes_nothing(*right, env);
        },
        ExprV::Push { base, value } => {
            assert(all.contains(base));
            assert(ir_vars::expr_vars(*value).subset_of(all));
            idle_renaming_changes_nothing(*value, env);
        },
        ExprV::JsonParse { value } => {
            assert(ir_vars::expr_vars(*value).subset_of(all));
            idle_renaming_changes_nothing(*value, env);
        },
        ExprV::JsonParseOr { value, default } => {
            assert(ir_vars::expr_vars(*value).subset_of(all));
            idle_renaming_changes_nothing(*value, env);
            assert(ir_vars::expr_vars(*default).subset_of(all));
            idle_renaming_changes_nothing(*default, env);
        },
        ExprV::ToString { value } => {
            assert(ir_vars::expr_vars(*value).subset_of(all));
            idle_renaming_changes_nothing(*value, env);
        },
        ExprV::Array(x) => {
            idle_for_lists(x, env);
        },
        ExprV::Object(x) => {
            idle_for_fields(x, env);
        },
        ExprV::Concat { left, right } => {
            assert(ir_vars::expr_vars(*left).subset_of(all));
            idle_renaming_changes_nothing(*left, env);
            assert(ir_vars::expr_vars(*right).subset_of(all));
            idle_renaming_changes_nothing(*right, env);
        },
        ExprV::SelectToolResults { history, ids } => {
            assert(all.contains(history));
            assert(ir_vars::expr_vars(*ids).subset_of(all));
            idle_renaming_changes_nothing(*ids, env);
        },
    }
}

proof fn idle_for_lists(items: Seq<ExprV>, env: Map<Seq<char>, Seq<char>>)
    requires
        keeps(ir_vars::exprs_vars(items), env),
    ensures
        ir_normalize::renamed_exprs(items, env) == Some(items),
    decreases items,
{
    if items.len() > 0 {
        let all = ir_vars::exprs_vars(items);
        assert(ir_vars::exprs_vars(items.drop_last()).subset_of(all));
        assert(ir_vars::expr_vars(items[items.len() - 1]).subset_of(all));
        idle_for_lists(items.drop_last(), env);
        idle_renaming_changes_nothing(items[items.len() - 1], env);
        assert(items.drop_last().push(items[items.len() - 1]) =~= items);
    } else {
        assert(items =~= Seq::empty());
    }
}

proof fn idle_for_fields(items: Seq<(Seq<char>, ExprV)>, env: Map<Seq<char>, Seq<char>>)
    requires
        keeps(ir_vars::named_vars(items), env),
    ensures
        ir_normalize::renamed_named(items, env) == Some(items),
    decreases items,
{
    if items.len() > 0 {
        let all = ir_vars::named_vars(items);
        let last = items[items.len() - 1];
        assert(ir_vars::named_vars(items.drop_last()).subset_of(all));
        assert(ir_vars::expr_vars(last.1).subset_of(all));
        idle_for_fields(items.drop_last(), env);
        idle_renaming_changes_nothing(last.1, env);
        assert(items.drop_last().push((last.0, last.1)) =~= items);
    } else {
        assert(items =~= Seq::empty());
    }
}

/// The renaming that gives every variable the same name.
pub open spec fn to_one(name: Seq<char>) -> Map<Seq<char>, Seq<char>> {
    Map::new(|x: Seq<char>| true, |x: Seq<char>| name)
}

/// Renaming changes nothing but names: an expression and a renamed one are the
/// same once all their variables are called alike.
pub proof fn renaming_keeps_the_shape(
    e: ExprV,
    env: Map<Seq<char>, Seq<char>>,
    name: Seq<char>,
)
    requires
        ir_normalize::renamed_expr(e, env) is Some,
    ensures
        ir_normalize::renamed_expr(e, to_one(name)) is Some,
        ir_normalize::renamed_expr(ir_normalize::renamed_expr(e, env)->0, to_one(name))
            == ir_normalize::renamed_expr(e, to_one(name)),
{
    let all = to_one(name);
    renaming_maps_every_variable(e, all);
    assert(ir_vars::expr_vars(e).subset_of(all.dom()));
    let both = env.map_values(|x: Seq<char>| name);
    canon_laws::expr_twice(e, env, all, both);
    renaming_maps_every_variable(e, env);
    like_renamings_agree(e, both, all);
}

/// Renamings that agree on the variables of an expression do the same to it.
pub proof fn like_renamings_agree(
    e: ExprV,
    a: Map<Seq<char>, Seq<char>>,
    b: Map<Seq<char>, Seq<char>>,
)
    requires
        rename_alike(ir_vars::expr_vars(e), a, b),
    ensures
        ir_normalize::renamed_expr(e, a) == ir_normalize::renamed_expr(e, b),
    decreases e,
{
    let all = ir_vars::expr_vars(e);
    match e {
        ExprV::Value(_) => {},
        ExprV::Var(x) => {
            assert(all.contains(x));
        },
        ExprV::Field { base, .. } => {
            assert(all.contains(base));
        },
        ExprV::FieldOr { base, default, .. } => {
            assert(all.contains(base));
            assert(ir_vars::expr_vars(*default).subset_of(all));
            like_renamings_agree(*default, a, b);
        },
        ExprV::StringOr { value, default } => {
            assert(ir_vars::expr_vars(*value).subset_of(all));
            like_renamings_agree(*value, a, b);
            assert(ir_vars::expr_vars(*default).subset_of(all));
            like_renamings_agree(*default, a, b);
        },
        ExprV::If { cond, then_value, else_value } => {
            assert(ir_vars::expr_vars(*cond).subset_of(all));
            like_renamings_agree(*cond, a, b);
            assert(ir_vars::expr_vars(*then_value).subset_of(all));
            like_renamings_agree(*then_value, a, b);
            assert(ir_vars::expr_vars(*else_value).subset_of(all));
            like_renamings_agree(*else_value, a, b);
        },
        ExprV::Index { base, index } => {
            assert(all.contains(base));
            assert(ir_vars::expr_vars(*index).subset_of(all));
            like_renamings_agree(*index, a, b);
        },
        ExprV::Len { base } => {
            assert(all.contains(base));
        },
        ExprV::IsEmpty { base } => {
            assert(all.contains(base));
        },
        ExprV::Eq { left, right } => {
            assert(ir_vars::expr_vars(*left).subset_of(all));
            like_renamings_agree(*left, a, b);
            assert(ir_vars::expr_vars(*right).subset_of(all));
            like_renamings_agree(*right, a, b);
        },
        ExprV::Lt { left, right } => {
            assert(ir_vars::expr_vars(*left).subset_of(all));
            like_renamings_agree(*left, a, b);
            assert(ir_vars::expr_vars(*right).subset_of(all));
            like_renamings_agree(*right, a, b);
        },
        ExprV::Or { left, right } => {
            assert(ir_vars::expr_vars(*left).subset_of(all));
            like_renamings_agree(*left, a, b);
            assert(ir_vars::expr_vars(*right).subset_of(all));
            like_renamings_agree(*right, a, b);
        },
        ExprV::And { left, right } => {
            assert(ir_vars::expr_vars(*left).subset_of(all));
            like_renamings_agree(*left, a, b);
            assert(ir_vars::expr_vars(*right).subset_of(all));
            like_renamings_agree(*right, a, b);
        },
        ExprV::HasPendingToolCalls { base } => {
            assert(all.contains(base));
        },
        ExprV::Add { left, right } => {
            assert(ir_vars::expr_vars(*left).subset_of(all));
            like_renamings_agree(*left, a, b);
            assert(ir_vars::expr_vars(*right).subset_of(all));
            like_renamings_agree(*right, a, b);
        },
        ExprV::Sub { left, right } => {
            assert(ir_vars::expr_vars(*left).subset_of(all));
            like_renamings_agree(*left, a, b);
            assert(ir_vars::expr_vars(*right).subset_of(all));
            like_renamings_agree(*right, a, b);
        },
        ExprV::Push { base, value } => {
            assert(all.contains(base));
            assert(ir_vars::expr_vars(*value).subset_of(all));
            like_renamings_agree(*value, a, b);
        },
        ExprV::JsonParse { value } => {
            assert(ir_vars::expr_vars(*value).subset_of(all));
            like_renamings_agree(*value, a, b);
        },
        ExprV::JsonParseOr { value, default } => {
            assert(ir_vars::expr_vars(*value).subset_of(all));
            like_renamings_agree(*value, a, b);
            assert(ir_vars::expr_vars(*default).subset_of(all));
            like_renamings_agree(*default, a, b);
        },
        ExprV::ToString { value } => {
            assert(ir_vars::expr_vars(*value).subset_of(all));
            like_renamings_agree(*value, a, b);
        },
        ExprV::Array(x) => {
            alike_for_lists(x, a, b);
        },
        ExprV::Object(x) => {
            alike_for_fields(x, a, b);
        },
        ExprV::Concat { left, right } => {
            assert(ir_vars::expr_vars(*left).subset_of(all));
            like_renamings_agree(*left, a, b);
            assert(ir_vars::expr_vars(*right).subset_of(all));
            like_renamings_agree(*right, a, b);
        },
        ExprV::SelectToolResults { history, ids } => {
            assert(all.contains(history));
            assert(ir_vars::expr_vars(*ids).subset_of(all));
            like_renamings_agree(*ids, a, b);
        },
    }
}

/// Whether two renamings give some variables the same new names, or none.
pub open spec fn rename_alike(
    vars: Set<Seq<char>>,
    a: Map<Seq<char>, Seq<char>>,
    b: Map<Seq<char>, Seq<char>>,
) -> bool {
    forall|x: Seq<char>| #[trigger]
        vars.contains(x) ==> ir_normalize::renamed_var(x, a) == ir_normalize::renamed_var(x, b)
}

proof fn alike_for_lists(
    items: Seq<ExprV>,
    a: Map<Seq<char>, Seq<char>>,
    b: Map<Seq<char>, Seq<char>>,
)
    requires
        rename_alike(ir_vars::exprs_vars(items), a, b),
    ensures
        ir_normalize::renamed_exprs(items, a) == ir_normalize::renamed_exprs(items, b),
    decreases items,
{
    if items.len() > 0 {
        let all = ir_vars::exprs_vars(items);
        assert(ir_vars::exprs_vars(items.drop_last()).subset_of(all));
        assert(ir_vars::expr_vars(items[items.len() - 1]).subset_of(all));
        alike_for_lists(items.drop_last(), a, b);
        like_renamings_agree(items[items.len() - 1], a, b);
    }
}

proof fn alike_for_fields(
    items: Seq<(Seq<char>, ExprV)>,
    a: Map<Seq<char>, Seq<char>>,
    b: Map<Seq<char>, Seq<char>>,
)
    requires
        rename_alike(ir_vars::named_vars(items), a, b),
    ensures
        ir_normalize::renamed_named(items, a) == ir_normalize::renamed_named(items, b),
    decreases items,
{
    if items.len() > 0 {
        let all = ir_vars::named_vars(items);
        assert(ir_vars::named_vars(items.drop_last()).subset_of(all));
        assert(ir_vars::expr_vars(items[items.len() - 1].1).subset_of(all));
        alike_for_fields(items.drop_last(), a, b);
        like_renamings_agree(items[items.len() - 1].1, a, b);
    }
}

} // verus!
