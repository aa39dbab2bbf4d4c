//! What expressions, patterns and the ends of blocks do, and how they relate.
use crate::eval;
use crate::eval::EvalErrorV;
use crate::ir;
use crate::ir::{ExprV, MatchArmV, PatternV, TerminatorV};
use crate::json;
use crate::json::{Fields, JsonV};
use crate::machine;
use crate::machine::{MachineV, RunErrorV, TransferV};
use vstd::prelude::*;

verus! {

/// A text pattern accepts its own text and nothing else: no other text, and
/// nothing that is no text.
pub proof fn text_patterns_accept_one_text(v: JsonV, s: Seq<char>, t: Seq<char>)
    ensures
        eval::fits(JsonV::Str(s), PatternV::Text(s)),
        s != t ==> !eval::fits(JsonV::Str(s), PatternV::Text(t)),
        v !is Str ==> !eval::fits(v, PatternV::Text(t)),
        eval::fits(v, PatternV::Text(s)) && eval::fits(v, PatternV::Text(t)) ==> s == t,
{
}

/// A truth value fits the pattern of itself and not that of its opposite; null
/// fits no pattern of a truth value, and a truth value not the one of null.
pub proof fn plain_patterns_accept_one_value(v: JsonV, b: bool)
    ensures
        eval::fits(JsonV::Bool(b), PatternV::Bool(b)),
        !eval::fits(JsonV::Bool(!b), PatternV::Bool(b)),
        eval::fits(JsonV::Null, PatternV::Null),
        eval::fits(v, PatternV::Null) ==> !eval::fits(v, PatternV::Bool(b)) && v is Null,
        eval::fits(v, PatternV::Bool(b)) ==> v == JsonV::Bool(b),
{
}

/// A number fits the pattern of itself; of whole numbers no other does, and what
/// is no number fits no pattern of one.
pub proof fn number_patterns_accept_their_number(v: JsonV, n: int, k: int, t: Seq<char>)
    ensures
        eval::fits(JsonV::Int(n), PatternV::Number(JsonV::Int(n))),
        n != k ==> !eval::fits(JsonV::Int(n), PatternV::Number(JsonV::Int(k))),
        eval::fits(JsonV::Float(t), PatternV::Number(JsonV::Float(t))),
        !eval::fits(JsonV::Int(n), PatternV::Number(JsonV::Float(t))),
        !eval::fits(JsonV::Float(t), PatternV::Number(JsonV::Int(n))),
        v !is Int && v !is Float ==> !eval::fits(v, PatternV::Number(JsonV::Int(n)))
            && !eval::fits(v, PatternV::Number(v)),
{
}

/// A field pattern looks at that field alone: it accepts an object whose field
/// was set to a value exactly where its inner pattern accepts the value,
/// whatever else the object holds, and it accepts nothing without the field.
pub proof fn field_patterns_look_at_their_field(
    f: Fields,
    key: Seq<char>,
    other: Seq<char>,
    x: JsonV,
    y: JsonV,
    p: PatternV,
    v: JsonV,
)
    requires
        other != key,
    ensures
        ({
            let q = PatternV::ObjectField { field: key, pattern: Box::new(p) };
            let object = JsonV::Object(json::put(f, key, x));
            &&& eval::fits(object, q) == eval::fits(x, p)
            &&& eval::fits(JsonV::Object(json::put(f, other, y)), q) == eval::fits(
                JsonV::Object(f),
                q,
            )
            &&& v.field(key) is None ==> !eval::fits(v, q)
            &&& v !is Object ==> !eval::fits(v, q)
            &&& eval::fits(v, PatternV::Any)
        }),
{
    json::put_then_lookup(f, key, x);
    json::put_keeps_others(f, other, y, key);
}

/// Whether arms are told apart by texts.
pub open spec fn text_arms(arms: Seq<MatchArmV>) -> bool {
    &&& forall|i: int| 0 <= i < arms.len() ==> (#[trigger] arms[i]).pattern is Text
    &&& forall|i: int, j: int|
        0 <= i < j < arms.len() ==> (#[trigger] arms[i]).pattern->Text_0 != (
        #[trigger] arms[j]).pattern->Text_0
}

proof fn first_fit_found(v: JsonV, arms: Seq<MatchArmV>, from: int)
    requires
        0 <= from <= arms.len(),
    ensures
        match machine::first_fit(v, arms, from) {
            Some(i) => from <= i < arms.len() && eval::fits(v, arms[i].pattern) && forall|j: int|
                from <= j < i ==> !eval::fits(v, (#[trigger] arms[j]).pattern),
            None => forall|j: int|
                from <= j < arms.len() ==> !eval::fits(v, (#[trigger] arms[j]).pattern),
        },
    decreases arms.len() - from,
{
    if from < arms.len() && !eval::fits(v, arms[from].pattern) {
        first_fit_found(v, arms, from + 1);
    }
}

/// A match takes the first arm that accepts its value: the run goes to the block
/// of that arm, with its arguments; only where no arm does it goes to the
/// default, and without one it fails on the value.
pub proof fn matches_take_the_first_arm(
    m: MachineV,
    value: ExprV,
    arms: Seq<MatchArmV>,
    default: Option<u32>,
    default_args: Seq<ExprV>,
    v: JsonV,
)
    requires
        eval::eval(m.env, value) == Ok::<JsonV, EvalErrorV>(v),
        arms.len() <= u32::MAX,
    ensures
        ({
            let t = machine::transferred(
                m,
                TerminatorV::Match { value, arms, default, default_args },
            );
            let none = forall|j: int|
                0 <= j < arms.len() ==> !eval::fits(v, (#[trigger] arms[j]).pattern);
            &&& forall|i: int|
                0 <= i < arms.len() && eval::fits(v, (#[trigger] arms[i]).pattern) && (forall|j: int|
                    0 <= j < i ==> !eval::fits(v, (#[trigger] arms[j]).pattern)) ==> leads_to(
                    m,
                    t,
                    arms[i].block,
                    arms[i].args,
                    i as u32,
                )
            &&& none && default is Some ==> leads_to(
                m,
                t,
                default->0,
                default_args,
                arms.len() as u32,
            )
            &&& none && default is None ==> t == Err::<TransferV, RunErrorV>(RunErrorV::NoArm(v))
        }),
{
    first_fit_found(v, arms, 0);
    let t = machine::transferred(m, TerminatorV::Match { value, arms, default, default_args });
    if default is Some {
        transfers_lead(m, default->0, default_args, arms.len() as u32);
    }
    assert forall|i: int|
        0 <= i < arms.len() && eval::fits(v, (#[trigger] arms[i]).pattern) && (forall|j: int|
            0 <= j < i ==> !eval::fits(v, (#[trigger] arms[j]).pattern)) implies leads_to(
        m,
        t,
        arms[i].block,
        arms[i].args,
        i as u32,
    ) by {
        let k = machine::first_fit(v, arms, 0)->0;
        assert(machine::first_fit(v, arms, 0) is Some);
        if k < i {
            assert(!eval::fits(v, arms[k].pattern));
        }
        if i < k {
            assert(!eval::fits(v, arms[i].pattern));
        }
        transfers_lead(m, arms[i].block, arms[i].args, i as u32);
    }
}

/// Whether control goes to a block with arguments: it stands at the start of
/// that block, or fails for want of the block, of a parameter for each argument
/// or of the value of an argument.
pub open spec fn leads_to(
    m: MachineV,
    t: Result<TransferV, RunErrorV>,
    to: u32,
    args: Seq<ExprV>,
    arm: u32,
) -> bool {
    match t {
        Ok(TransferV::Goto(n)) => {
            &&& n.block == to
            &&& n.pc == 0
            &&& n.program == m.program
            &&& n.visits == m.visits
            &&& t == machine::going(machine::entered(m, to, args, arm))
        },
        Ok(TransferV::Return(_)) => false,
        Err(RunErrorV::UnknownBlock(b)) => b.0 == to && ir::block_at(m.program.blocks, to) is None,
        Err(RunErrorV::ArgCount { block, .. }) => {
            &&& block.0 == to
            &&& ir::block_at(m.program.blocks, to) is Some
            &&& (ir::block_at(m.program.blocks, to)->0).params.len() != args.len()
        },
        Err(RunErrorV::Eval(_)) => exists|i: int|
            0 <= i < args.len() && eval::eval(m.env, #[trigger] args[i]) is Err,
        Err(_) => false,
    }
}

proof fn bound_stops_at_a_failure(
    env: Fields,
    params: Seq<Seq<char>>,
    args: Seq<ExprV>,
    n: nat,
)
    requires
        n <= args.len(),
    ensures
        machine::bound(env, params, args, n) is Err ==> exists|i: int|
            0 <= i < n && eval::eval(env, #[trigger] args[i]) is Err,
        machine::bound(env, params, args, n) is Ok ==> forall|i: int|
            0 <= i < n ==> eval::eval(env, #[trigger] args[i]) is Ok,
    decreases n,
{
    if n > 0 {
        bound_stops_at_a_failure(env, params, args, (n - 1) as nat);
        if machine::bound(env, params, args, (n - 1) as nat) is Ok && machine::bound(
            env,
            params,
            args,
            n,
        ) is Err {
            assert(eval::eval(env, args[n - 1]) is Err);
        }
    }
}

/// A transfer to a block leads there.
proof fn transfers_lead(m: MachineV, to: u32, args: Seq<ExprV>, arm: u32)
    ensures
        leads_to(m, machine::going(machine::entered(m, to, args, arm)), to, args, arm),
{
    if ir::block_at(m.program.blocks, to) is Some {
        let b = ir::block_at(m.program.blocks, to)->0;
        if b.params.len() == args.len() {
            bound_stops_at_a_failure(m.env, b.params, args, args.len());
        }
    }
}

/// A match over different texts takes the arm whose text is the value, wherever
/// it stands, and the default where there is none.
pub proof fn matches_take_the_arm_of_their_text(
    m: MachineV,
    value: ExprV,
    arms: Seq<MatchArmV>,
    default: Option<u32>,
    default_args: Seq<ExprV>,
    s: Seq<char>,
)
    requires
        eval::eval(m.env, value) == Ok::<JsonV, EvalErrorV>(JsonV::Str(s)),
        arms.len() <= u32::MAX,
        text_arms(arms),
    ensures
        ({
            let t = machine::transferred(
                m,
                TerminatorV::Match { value, arms, default, default_args },
            );
            &&& forall|i: int|
                0 <= i < arms.len() && (#[trigger] arms[i]).pattern->Text_0 == s ==> leads_to(
                    m,
                    t,
                    arms[i].block,
                    arms[i].args,
                    i as u32,
                )
            &&& (forall|i: int| 0 <= i < arms.len() ==> (#[trigger] arms[i]).pattern->Text_0 != s)
                && default is Some ==> leads_to(
                m,
                t,
                default->0,
                default_args,
                arms.len() as u32,
            )
        }),
{
    matches_take_the_first_arm(m, value, arms, default, default_args, JsonV::Str(s));
    assert forall|i: int| 0 <= i < arms.len() && (#[trigger] arms[i]).pattern->Text_0 == s implies (
    eval::fits(JsonV::Str(s), arms[i].pattern) && forall|j: int|
        0 <= j < i ==> !eval::fits(JsonV::Str(s), (#[trigger] arms[j]).pattern)) by {
        assert forall|j: int| 0 <= j < i implies !eval::fits(
            JsonV::Str(s),
            (#[trigger] arms[j]).pattern,
        ) by {
            assert(arms[j].pattern->Text_0 != arms[i].pattern->Text_0);
        }
    }
}

/// A branch goes to its first block where its condition is true and to its
/// second where it is false; a condition that is no truth value goes nowhere.
pub proof fn branches_follow_their_condition(
    m: MachineV,
    cond: ExprV,
    then_block: u32,
    then_args: Seq<ExprV>,
    else_block: u32,
    else_args: Seq<ExprV>,
    v: JsonV,
)
    requires
        eval::eval(m.env, cond) == Ok::<JsonV, EvalErrorV>(v),
    ensures
        ({
            let t = machine::transferred(
                m,
                TerminatorV::If { cond, then_block, then_args, else_block, else_args },
            );
            &&& v == JsonV::Bool(true) ==> leads_to(m, t, then_block, then_args, 0)
            &&& v == JsonV::Bool(false) ==> leads_to(m, t, else_block, else_args, 1)
            &&& v !is Bool ==> t == Err::<TransferV, RunErrorV>(RunErrorV::IfNotBool(v))
        }),
{
    transfers_lead(m, then_block, then_args, 0);
    transfers_lead(m, else_block, else_args, 1);
}

/// A jump goes to its block, and a return hands out its value.
pub proof fn jumps_and_returns(m: MachineV, block: u32, args: Seq<ExprV>, value: ExprV)
    ensures
        leads_to(m, machine::transferred(m, TerminatorV::Goto { block, args }), block, args, 0),
        match (eval::eval(m.env, value), machine::transferred(m, TerminatorV::Return { value })) {
            (Ok(v), Ok(TransferV::Return(r))) => r == v,
            (Err(e), Err(RunErrorV::Eval(x))) => x == e,
            _ => false,
        },
{
    transfers_lead(m, block, args, 0);
}

proof fn bound_reads(
    env: Fields,
    params: Seq<Seq<char>>,
    args: Seq<ExprV>,
    n: nat,
    name: Seq<char>,
)
    requires
        n <= args.len(),
        n <= params.len(),
        params.no_duplicates(),
        machine::bound(env, params, args, n) is Ok,
    ensures
        forall|i: int|
            0 <= i < n && #[trigger] params[i] == name ==> json::lookup(
                machine::bound(env, params, args, n)->Ok_0,
                name,
            ) == Some(eval::eval(env, args[i])->Ok_0),
        (forall|i: int| 0 <= i < n ==> #[trigger] params[i] != name) ==> json::lookup(
            machine::bound(env, params, args, n)->Ok_0,
            name,
        ) == json::lookup(env, name),
    decreases n,
{
    if n > 0 {
        let k = (n - 1) as nat;
        bound_reads(env, params, args, k, name);
        let before = machine::bound(env, params, args, k)->Ok_0;
        let v = eval::eval(env, args[n - 1])->Ok_0;
        if params[n - 1] == name {
            json::put_then_lookup(before, name, v);
            assert forall|i: int| 0 <= i < n && #[trigger] params[i] == name implies i == n - 1 by {}
        } else {
            json::put_keeps_others(before, params[n - 1], v, name);
        }
    }
}

/// A block that is entered sees each of its parameters hold the value of the
/// argument in its place, taken before any of them was bound; every other
/// variable is as it was.
pub proof fn parameters_hold_their_arguments(
    m: MachineV,
    to: u32,
    args: Seq<ExprV>,
    arm: u32,
    name: Seq<char>,
)
    requires
        ir::block_at(m.program.blocks, to) is Some,
        (ir::block_at(m.program.blocks, to)->0).params.no_duplicates(),
        machine::entered(m, to, args, arm) is Ok,
    ensures
        ({
            let params = (ir::block_at(m.program.blocks, to)->0).params;
            let n = machine::entered(m, to, args, arm)->Ok_0;
            &&& params.len() == args.len()
            &&& forall|i: int|
                0 <= i < params.len() && #[trigger] params[i] == name ==> Ok::<JsonV, EvalErrorV>(
                    json::lookup(n.env, name)->0,
                ) == eval::eval(m.env, args[i]) && json::lookup(n.env, name) is Some
            &&& !params.contains(name) ==> json::lookup(n.env, name) == json::lookup(m.env, name)
        }),
{
    let params = (ir::block_at(m.program.blocks, to)->0).params;
    bound_reads(m.env, params, args, args.len(), name);
    bound_stops_at_a_failure(m.env, params, args, args.len());
}

/// The sum of two expressions.
pub open spec fn plus(x: ExprV, y: ExprV) -> ExprV {
    ExprV::Add { left: Box::new(x), right: Box::new(y) }
}

/// The difference of two expressions.
pub open spec fn minus(x: ExprV, y: ExprV) -> ExprV {
    ExprV::Sub { left: Box::new(x), right: Box::new(y) }
}

/// The comparison of two expressions.
pub open spec fn less(x: ExprV, y: ExprV) -> ExprV {
    ExprV::Lt { left: Box::new(x), right: Box::new(y) }
}

/// The equality of two expressions.
pub open spec fn equal(x: ExprV, y: ExprV) -> ExprV {
    ExprV::Eq { left: Box::new(x), right: Box::new(y) }
}

/// Whether an expression has a number for a value.
pub open spec fn is_number(env: Fields, x: ExprV, a: int) -> bool {
    eval::eval(env, x) == Ok::<JsonV, EvalErrorV>(JsonV::Int(a)) && i64::MIN <= a <= i64::MAX
}

/// Whether an expression has a truth value for a value.
pub open spec fn decides(env: Fields, x: ExprV, b: bool) -> bool {
    eval::eval(env, x) == Ok::<JsonV, EvalErrorV>(JsonV::Bool(b))
}

proof fn sum_of(env: Fields, x: ExprV, y: ExprV, a: int, b: int)
    requires
        is_number(env, x, a),
        is_number(env, y, b),
    ensures
        if i64::MIN <= a + b <= i64::MAX {
            is_number(env, plus(x, y), a + b)
        } else {
            eval::eval(env, plus(x, y)) is Err
        },
{
}

proof fn difference_of(env: Fields, x: ExprV, y: ExprV, a: int, b: int)
    requires
        is_number(env, x, a),
        is_number(env, y, b),
    ensures
        if i64::MIN <= a - b <= i64::MAX {
            is_number(env, minus(x, y), a - b)
        } else {
            eval::eval(env, minus(x, y)) is Err
        },
{
}

proof fn comparison_of(env: Fields, x: ExprV, y: ExprV, a: int, b: int)
    requires
        is_number(env, x, a),
        is_number(env, y, b),
    ensures
        decides(env, less(x, y), a < b),
{
}

proof fn equality_of(env: Fields, x: ExprV, y: ExprV, a: JsonV, b: JsonV)
    requires
        eval::eval(env, x) == Ok::<JsonV, EvalErrorV>(a),
        eval::eval(env, y) == Ok::<JsonV, EvalErrorV>(b),
    ensures
        decides(env, equal(x, y), json::same(a, b)),
{
}

proof fn constants(env: Fields, v: JsonV)
    ensures
        eval::eval(env, ExprV::Value(v)) == Ok::<JsonV, EvalErrorV>(v),
{
}

/// Sums and differences undo each other, sums do not depend on the order of
/// their terms, and nothing changes a number by zero.  A sum that does not fit
/// has no value.
pub proof fn sums_and_differences(env: Fields, x: ExprV, y: ExprV, a: int, b: int)
    requires
        is_number(env, x, a),
        is_number(env, y, b),
    ensures
        ({
            let sum = eval::eval(env, plus(x, y));
            let zero = ExprV::Value(JsonV::Int(0));
            &&& sum is Ok <==> i64::MIN <= a + b <= i64::MAX
            &&& sum is Ok ==> sum == eval::eval(env, plus(y, x))
            &&& sum is Ok ==> eval::eval(env, minus(ExprV::Value(sum->Ok_0), y)) == eval::eval(
                env,
                x,
            )
            &&& eval::eval(env, plus(x, zero)) == eval::eval(env, x)
            &&& eval::eval(env, minus(x, zero)) == eval::eval(env, x)
            &&& eval::eval(env, minus(x, x)) == eval::eval(env, zero)
            &&& eval::eval(env, minus(x, y)) is Ok <==> i64::MIN <= a - b <= i64::MAX
        }),
{
    let zero = ExprV::Value(JsonV::Int(0));
    constants(env, JsonV::Int(0));
    constants(env, JsonV::Int(a + b));
    sum_of(env, x, y, a, b);
    sum_of(env, y, x, b, a);
    sum_of(env, x, zero, a, 0);
    difference_of(env, x, zero, a, 0);
    difference_of(env, x, x, a, a);
    difference_of(env, x, y, a, b);
    if i64::MIN <= a + b <= i64::MAX {
        difference_of(env, ExprV::Value(JsonV::Int(a + b)), y, a + b, b);
    }
}

/// A number is less than its successor and not the other way round; of two
/// numbers one is less than the other, or they are equal.
pub proof fn less_orders_numbers(env: Fields, x: ExprV, y: ExprV, a: int, b: int)
    requires
        is_number(env, x, a),
        is_number(env, y, b),
        a < i64::MAX,
    ensures
        ({
            let next = plus(x, ExprV::Value(JsonV::Int(1)));
            &&& decides(env, less(x, next), true)
            &&& decides(env, less(next, x), false)
            &&& decides(env, less(x, x), false)
            &&& decides(env, less(x, y), true) || decides(env, less(y, x), true) || decides(
                env,
                equal(x, y),
                true,
            )
            &&& decides(env, less(x, y), true) ==> decides(env, less(y, x), false) && decides(
                env,
                equal(x, y),
                false,
            ) && decides(env, less(y, next), false)
            &&& decides(env, equal(x, y), true) ==> decides(env, less(x, y), false) && decides(
                env,
                less(y, x),
                false,
            )
        }),
{
    let one = ExprV::Value(JsonV::Int(1));
    let next = plus(x, one);
    constants(env, JsonV::Int(1));
    sum_of(env, x, one, a, 1);
    comparison_of(env, x, next, a, a + 1);
    comparison_of(env, next, x, a + 1, a);
    comparison_of(env, x, x, a, a);
    comparison_of(env, x, y, a, b);
    comparison_of(env, y, x, b, a);
    comparison_of(env, y, next, b, a + 1);
    equality_of(env, x, y, JsonV::Int(a), JsonV::Int(b));
}

/// Equality holds of every value with itself and does not depend on sides; texts,
/// truth values and numbers of different content are not equal.
pub proof fn equality_compares_values(env: Fields, x: ExprV, y: ExprV, a: JsonV, b: JsonV)
    requires
        eval::eval(env, x) == Ok::<JsonV, EvalErrorV>(a),
        eval::eval(env, y) == Ok::<JsonV, EvalErrorV>(b),
    ensures
        decides(env, equal(x, x), true),
        eval::eval(env, equal(x, y)) == eval::eval(env, equal(y, x)),
        a == b ==> decides(env, equal(x, y), true),
        (a is Str || a is Int || a is Bool || a is Null) && a != b ==> decides(
            env,
            equal(x, y),
            false,
        ),
{
    json::same_reflexive(a);
    equality_is_symmetric(a, b);
    equality_of(env, x, x, a, a);
    equality_of(env, x, y, a, b);
    equality_of(env, y, x, b, a);
}

/// Equality of values does not depend on sides.
pub proof fn equality_is_symmetric(a: JsonV, b: JsonV)
    ensures
        json::same(a, b) == json::same(b, a),
    decreases a,
{
    match (a, b) {
        (JsonV::Array(x), JsonV::Array(y)) => {
            if x.len() == y.len() {
                assert forall|i: int| 0 <= i < x.len() implies json::same(#[trigger] x[i], y[i])
                    == json::same(y[i], x[i]) by {
                    equality_is_symmetric(x[i], y[i]);
                }
                if json::same(a, b) {
                    assert forall|i: int| 0 <= i < y.len() implies json::same(
                        #[trigger] y[i],
                        x[i],
                    ) by {
                        assert(json::same(x[i], y[i]));
                    }
                }
                if json::same(b, a) {
                    assert forall|i: int| 0 <= i < x.len() implies json::same(
                        #[trigger] x[i],
                        y[i],
                    ) by {
                        assert(json::same(y[i], x[i]));
                    }
                }
            }
        },
        (JsonV::Object(x), JsonV::Object(y)) => {
            if x.len() == y.len() {
                assert forall|i: int| 0 <= i < x.len() implies json::same(
                    (#[trigger] x[i]).1,
                    y[i].1,
                ) == json::same(y[i].1, x[i].1) by {
                    equality_is_symmetric(x[i].1, y[i].1);
                }
                if json::same(a, b) {
                    assert forall|i: int| 0 <= i < y.len() implies (#[trigger] y[i]).0 == x[i].0
                        && json::same(y[i].1, x[i].1) by {
                        assert(json::same(x[i].1, y[i].1));
                    }
                }
                if json::same(b, a) {
                    assert forall|i: int| 0 <= i < x.len() implies (#[trigger] x[i]).0 == y[i].0
                        && json::same(x[i].1, y[i].1) by {
                        assert(json::same(y[i].1, x[i].1));
                    }
                }
            }
        },
        _ => {},
    }
}

/// One true side decides a disjunction and one false side a conjunction, without
/// a look at the right side; otherwise the right side decides.  Both are false
/// and true on what a choice between the sides would give.
pub proof fn connectives_decide_early(env: Fields, x: ExprV, y: ExprV, a: bool)
    requires
        eval::eval(env, x) == Ok::<JsonV, EvalErrorV>(JsonV::Bool(a)),
    ensures
        ({
            let or = eval::eval(env, ExprV::Or { left: Box::new(x), right: Box::new(y) });
            let and = eval::eval(env, ExprV::And { left: Box::new(x), right: Box::new(y) });
            let choice = |t: ExprV, f: ExprV|
                eval::eval(
                    env,
                    ExprV::If {
                        cond: Box::new(x),
                        then_value: Box::new(t),
                        else_value: Box::new(f),
                    },
                );
            let right = eval::eval(env, y);
            &&& a ==> or == eval::eval(env, x)
            &&& !a ==> and == eval::eval(env, x)
            &&& !a && right is Ok && right->Ok_0 is Bool ==> or == right
            &&& a && right is Ok && right->Ok_0 is Bool ==> and == right
            &&& right is Ok && right->Ok_0 is Bool ==> or == choice(x, y) && and == choice(y, x)
            &&& choice(x, y) == if a {
                eval::eval(env, x)
            } else {
                right
            }
        }),
{
}

/// The value at a place of a list.
pub open spec fn at(base: Seq<char>, i: int) -> ExprV {
    ExprV::Index { base, index: Box::new(ExprV::Value(JsonV::Int(i))) }
}

proof fn item_at(env: Fields, base: Seq<char>, items: Seq<JsonV>, i: int)
    requires
        json::lookup(env, base) == Some(JsonV::Array(items)),
        0 <= i <= i64::MAX,
        i <= usize::MAX,
    ensures
        if i < items.len() {
            eval::eval(env, at(base, i)) == Ok::<JsonV, EvalErrorV>(items[i])
        } else {
            eval::eval(env, at(base, i)) is Err
        },
{
    constants(env, JsonV::Int(i));
}

proof fn size_of(env: Fields, base: Seq<char>, items: Seq<JsonV>)
    requires
        json::lookup(env, base) == Some(JsonV::Array(items)),
    ensures
        eval::eval(env, ExprV::Len { base }) == Ok::<JsonV, EvalErrorV>(
            JsonV::Int(items.len() as int),
        ),
        decides(env, ExprV::IsEmpty { base }, items.len() == 0),
{
}

/// Lists grow at their end: pushing makes a list one longer, the new value is
/// found at the end, and what was there stays in its place; a list is empty
/// where its length is zero, and nothing stands behind its end.
pub proof fn pushed_values_are_found(
    env: Fields,
    base: Seq<char>,
    items: Seq<JsonV>,
    e: ExprV,
    v: JsonV,
    i: int,
    held: Seq<char>,
)
    requires
        json::lookup(env, base) == Some(JsonV::Array(items)),
        eval::eval(env, e) == Ok::<JsonV, EvalErrorV>(v),
        items.len() < i64::MAX,
        items.len() < usize::MAX,
        0 <= i < items.len(),
    ensures
        ({
            let pushed = eval::eval(env, ExprV::Push { base, value: Box::new(e) });
            let after = json::put(env, held, pushed->Ok_0);
            let n = items.len() as int;
            &&& pushed is Ok
            &&& is_number(env, ExprV::Len { base }, n)
            &&& is_number(after, ExprV::Len { base: held }, n + 1)
            &&& eval::eval(after, at(held, n)) == eval::eval(env, e)
            &&& eval::eval(after, at(held, i)) == eval::eval(env, at(base, i))
            &&& eval::eval(env, at(base, i)) is Ok
            &&& eval::eval(env, at(base, n)) is Err
            &&& decides(after, ExprV::IsEmpty { base: held }, false)
            &&& decides(env, ExprV::IsEmpty { base }, n == 0)
        }),
{
    let more = items.push(v);
    let n = items.len() as int;
    pushed_gives(env, base, items, e, v);
    let after = json::put(env, held, JsonV::Array(more));
    json::put_then_lookup(env, held, JsonV::Array(more));
    size_of(env, base, items);
    size_of(after, held, more);
    item_at(env, base, items, i);
    item_at(env, base, items, n);
    item_at(after, held, more, i);
    item_at(after, held, more, n);
}

proof fn pushed_gives(env: Fields, base: Seq<char>, items: Seq<JsonV>, e: ExprV, v: JsonV)
    requires
        json::lookup(env, base) == Some(JsonV::Array(items)),
        eval::eval(env, e) == Ok::<JsonV, EvalErrorV>(v),
    ensures
        eval::eval(env, ExprV::Push { base, value: Box::new(e) }) == Ok::<JsonV, EvalErrorV>(
            JsonV::Array(items.push(v)),
        ),
{
}

/// A text is as long as it has characters, and empty where it has none.
pub proof fn texts_have_a_length(env: Fields, base: Seq<char>, s: Seq<char>)
    requires
        json::lookup(env, base) == Some(JsonV::Str(s)),
    ensures
        eval::eval(env, ExprV::Len { base }) == Ok::<JsonV, EvalErrorV>(JsonV::Int(s.len() as int)),
        decides(env, ExprV::IsEmpty { base }, s.len() == 0),
{
}

/// Joining lists keeps both in their order; a list of expressions holds their
/// values in their places.
pub proof fn joined_lists_keep_their_order(
    env: Fields,
    x: ExprV,
    y: ExprV,
    a: Seq<JsonV>,
    b: Seq<JsonV>,
)
    requires
        eval::eval(env, x) == Ok::<JsonV, EvalErrorV>(JsonV::Array(a)),
        eval::eval(env, y) == Ok::<JsonV, EvalErrorV>(JsonV::Array(b)),
    ensures
        ({
            let r = eval::eval(env, ExprV::Concat { left: Box::new(x), right: Box::new(y) });
            &&& r is Ok && r->Ok_0 is Array
            &&& (r->Ok_0)->Array_0.len() == a.len() + b.len()
            &&& forall|i: int| 0 <= i < a.len() ==> (r->Ok_0)->Array_0[i] == #[trigger] a[i]
            &&& forall|i: int| 0 <= i < b.len() ==> (r->Ok_0)->Array_0[a.len() + i] == #[trigger] b[i]
        }),
{
}

proof fn listed_in_place(env: Fields, items: Seq<ExprV>)
    ensures
        match eval::eval_items(env, items) {
            Ok(vs) => vs.len() == items.len() && forall|i: int|
                0 <= i < items.len() ==> eval::eval(env, #[trigger] items[i]) == Ok::<
                    JsonV,
                    EvalErrorV,
                >(vs[i]),
            Err(e) => exists|i: int|
                0 <= i < items.len() && eval::eval(env, #[trigger] items[i]) == Err::<
                    JsonV,
                    EvalErrorV,
                >(e) && forall|j: int| 0 <= j < i ==> eval::eval(env, #[trigger] items[j]) is Ok,
        },
    decreases items.len(),
{
    if items.len() > 0 {
        let less = items.drop_last();
        listed_in_place(env, less);
        assert(forall|i: int| 0 <= i < less.len() ==> less[i] == items[i]);
        match eval::eval_items(env, less) {
            Ok(vs) => {
                assert forall|j: int| 0 <= j < items.len() - 1 implies eval::eval(
                    env,
                    #[trigger] items[j],
                ) is Ok by {
                    assert(less[j] == items[j]);
                }
                assert(items[items.len() - 1] == items.last());
                if eval::eval_items(env, items) is Ok {
                    let ws = eval::eval_items(env, items)->Ok_0;
                    assert forall|i: int| 0 <= i < items.len() implies eval::eval(
                        env,
                        #[trigger] items[i],
                    ) == Ok::<JsonV, EvalErrorV>(ws[i]) by {
                        if i < less.len() {
                            assert(less[i] == items[i]);
                        }
                    }
                }
            },
            Err(e) => {
                let i = choose|i: int|
                    0 <= i < less.len() && eval::eval(env, #[trigger] less[i]) == Err::<
                        JsonV,
                        EvalErrorV,
                    >(e) && forall|j: int|
                        0 <= j < i ==> eval::eval(env, #[trigger] less[j]) is Ok;
                assert(items[i] == less[i]);
                assert forall|j: int| 0 <= j < i implies eval::eval(
                    env,
                    #[trigger] items[j],
                ) is Ok by {
                    assert(less[j] == items[j]);
                }
            },
        }
    }
}

/// A list of expressions becomes the list of their values, each in its place; it
/// fails as the first of them does.
pub proof fn lists_hold_their_values(env: Fields, items: Seq<ExprV>)
    ensures
        match eval::eval(env, ExprV::Array(items)) {
            Ok(JsonV::Array(vs)) => vs.len() == items.len() && forall|i: int|
                0 <= i < items.len() ==> eval::eval(env, #[trigger] items[i]) == Ok::<
                    JsonV,
                    EvalErrorV,
                >(vs[i]),
            Ok(_) => false,
            Err(e) => exists|i: int|
                0 <= i < items.len() && eval::eval(env, #[trigger] items[i]) == Err::<
                    JsonV,
                    EvalErrorV,
                >(e) && forall|j: int| 0 <= j < i ==> eval::eval(env, #[trigger] items[j]) is Ok,
        },
{
    listed_in_place(env, items);
}

proof fn fields_in_place(env: Fields, items: Seq<(Seq<char>, ExprV)>, i: int)
    requires
        0 <= i < items.len(),
        forall|j: int| i < j < items.len() ==> (#[trigger] items[j]).0 != items[i].0,
        eval::eval_fields(env, items) is Ok,
    ensures
        eval::eval(env, items[i].1) is Ok,
        json::lookup(eval::eval_fields(env, items)->Ok_0, items[i].0) == Some(
            eval::eval(env, items[i].1)->Ok_0,
        ),
    decreases items.len(),
{
    let less = items.drop_last();
    let last = items[items.len() - 1];
    let before = eval::eval_fields(env, less)->Ok_0;
    let v = eval::eval(env, last.1)->Ok_0;
    if i == items.len() - 1 {
        json::put_then_lookup(before, last.0, v);
    } else {
        assert(less[i] == items[i]);
        assert forall|j: int| i < j < less.len() implies (#[trigger] less[j]).0 != less[i].0 by {
            assert(items[j].0 != items[i].0);
        }
        fields_in_place(env, less, i);
        json::put_keeps_others(before, last.0, v, items[i].0);
    }
}

/// An object of expressions holds under each name the value of the expression
/// that is listed last under it; a field that is read gives what the object
/// holds, and where there is none a default does, or the read fails.
pub proof fn objects_hold_their_values(
    env: Fields,
    items: Seq<(Seq<char>, ExprV)>,
    i: int,
    held: Seq<char>,
    d: ExprV,
    absent: Seq<char>,
)
    requires
        0 <= i < items.len(),
        forall|j: int| i < j < items.len() ==> (#[trigger] items[j]).0 != items[i].0,
        eval::eval(env, ExprV::Object(items)) is Ok,
        (eval::eval(env, ExprV::Object(items))->Ok_0).field(absent) is None,
    ensures
        ({
            let o = eval::eval(env, ExprV::Object(items))->Ok_0;
            let after = json::put(env, held, o);
            let name = items[i].0;
            &&& o is Object
            &&& eval::eval(after, ExprV::Field { base: held, field: name }) == eval::eval(
                env,
                items[i].1,
            )
            &&& eval::eval(
                after,
                ExprV::FieldOr { base: held, field: name, default: Box::new(d) },
            ) == eval::eval(env, items[i].1)
            &&& eval::eval(after, ExprV::Field { base: held, field: absent }) is Err
            &&& eval::eval(
                after,
                ExprV::FieldOr { base: held, field: absent, default: Box::new(d) },
            ) == eval::eval(after, d)
        }),
{
    fields_in_place(env, items, i);
    json::put_then_lookup(env, held, eval::eval(env, ExprV::Object(items))->Ok_0);
}

/// A variable gives what it holds and a constant itself; a text stands for
/// itself where a default is given, and anything else for the default.
pub proof fn reads_give_what_is_held(env: Fields, x: Seq<char>, v: JsonV, d: ExprV)
    ensures
        eval::eval(json::put(env, x, v), ExprV::Var(x)) == Ok::<JsonV, EvalErrorV>(v),
        eval::eval(env, ExprV::Value(v)) == Ok::<JsonV, EvalErrorV>(v),
        json::lookup(env, x) is None ==> eval::eval(env, ExprV::Var(x)) == Err::<JsonV, EvalErrorV>(
            EvalErrorV::UnknownVar(x),
        ),
        eval::eval(
            env,
            ExprV::StringOr { value: Box::new(ExprV::Value(v)), default: Box::new(d) },
        ) == if v is Str {
            Ok(v)
        } else {
            eval::eval(env, d)
        },
{
    json::put_then_lookup(env, x, v);
}

/// A text that is parsed gives the value it stands for; one that stands for none
/// gives the default, or fails.  A value that is turned into a text gives the
/// text that stands for it, also where it is a text.
pub proof fn texts_and_values(env: Fields, s: Seq<char>, v: JsonV, d: ExprV)
    ensures
        ({
            let t = Box::new(ExprV::Value(JsonV::Str(s)));
            let parse = eval::eval(env, ExprV::JsonParse { value: t });
            let or = eval::eval(env, ExprV::JsonParseOr { value: t, default: Box::new(d) });
            &&& json::parsed(s) is Ok ==> parse == or && parse == Ok::<JsonV, EvalErrorV>(
                json::parsed(s)->Ok_0,
            )
            &&& json::parsed(s) is Err ==> parse is Err && or == eval::eval(env, d)
            &&& eval::eval(env, ExprV::ToString { value: Box::new(ExprV::Value(v)) }) == Ok::<
                JsonV,
                EvalErrorV,
            >(JsonV::Str(json::json_text(v)))
        }),
{
    constants(env, JsonV::Str(s));
    constants(env, v);
}

} // verus!
