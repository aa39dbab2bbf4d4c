//! What an expression without a value fails with: which part of it, and which value
//! stood there.
use crate::eval;
use crate::eval::EvalErrorV;
use crate::ir::ExprV;
use crate::json;
use crate::json::{Fields, JsonV};
use vstd::prelude::*;

verus! {

/// Whether an expression has a value.
pub open spec fn has(env: Fields, x: ExprV, v: JsonV) -> bool {
    eval::eval(env, x) == Ok::<JsonV, EvalErrorV>(v)
}

/// Whether an expression fails.
pub open spec fn fails(env: Fields, x: ExprV, e: EvalErrorV) -> bool {
    eval::eval(env, x) == Err::<JsonV, EvalErrorV>(e)
}

/// Whether a value is a number that can be computed with.
pub open spec fn small(v: JsonV) -> bool {
    v matches JsonV::Int(n) && i64::MIN <= n <= i64::MAX
}

proof fn if_cond_must_be_bool(env: Fields, x: ExprV, y: ExprV, z: ExprV, v: JsonV)
    requires
        has(env, x, v),
        !(v is Bool),
    ensures
        fails(env, ExprV::If { cond: Box::new(x), then_value: Box::new(y), else_value: Box::new(z) }, EvalErrorV::NotBool { label: "If.cond"@, value: v }),
{
}

proof fn or_left_must_be_bool(env: Fields, x: ExprV, y: ExprV, z: ExprV, v: JsonV)
    requires
        has(env, x, v),
        !(v is Bool),
    ensures
        fails(env, ExprV::Or { left: Box::new(x), right: Box::new(y) }, EvalErrorV::NotBool { label: "Or.left"@, value: v }),
{
}

proof fn and_left_must_be_bool(env: Fields, x: ExprV, y: ExprV, z: ExprV, v: JsonV)
    requires
        has(env, x, v),
        !(v is Bool),
    ensures
        fails(env, ExprV::And { left: Box::new(x), right: Box::new(y) }, EvalErrorV::NotBool { label: "And.left"@, value: v }),
{
}

proof fn lt_left_must_be_number(env: Fields, x: ExprV, y: ExprV, z: ExprV, v: JsonV)
    requires
        has(env, x, v),
        !(v is Int) && !(v is Float),
    ensures
        fails(env, ExprV::Lt { left: Box::new(x), right: Box::new(y) }, EvalErrorV::NotNumber { label: "Lt.left"@, value: v }),
{
}

proof fn add_left_must_be_number(env: Fields, x: ExprV, y: ExprV, z: ExprV, v: JsonV)
    requires
        has(env, x, v),
        !(v is Int) && !(v is Float),
    ensures
        fails(env, ExprV::Add { left: Box::new(x), right: Box::new(y) }, EvalErrorV::NotNumber { label: "Add.left"@, value: v }),
{
}

proof fn sub_left_must_be_number(env: Fields, x: ExprV, y: ExprV, z: ExprV, v: JsonV)
    requires
        has(env, x, v),
        !(v is Int) && !(v is Float),
    ensures
        fails(env, ExprV::Sub { left: Box::new(x), right: Box::new(y) }, EvalErrorV::NotNumber { label: "Sub.left"@, value: v }),
{
}

proof fn lt_left_must_be_whole(env: Fields, x: ExprV, y: ExprV, z: ExprV, v: JsonV)
    requires
        has(env, x, v),
        v is Float,
    ensures
        fails(env, ExprV::Lt { left: Box::new(x), right: Box::new(y) }, EvalErrorV::NotI64 { label: "Lt.left"@, value: v }),
{
}

proof fn add_left_must_be_whole(env: Fields, x: ExprV, y: ExprV, z: ExprV, v: JsonV)
    requires
        has(env, x, v),
        v is Float,
    ensures
        fails(env, ExprV::Add { left: Box::new(x), right: Box::new(y) }, EvalErrorV::NotI64 { label: "Add.left"@, value: v }),
{
}

proof fn sub_left_must_be_whole(env: Fields, x: ExprV, y: ExprV, z: ExprV, v: JsonV)
    requires
        has(env, x, v),
        v is Float,
    ensures
        fails(env, ExprV::Sub { left: Box::new(x), right: Box::new(y) }, EvalErrorV::NotI64 { label: "Sub.left"@, value: v }),
{
}

proof fn json_parse_value_must_be_text(env: Fields, x: ExprV, y: ExprV, z: ExprV, v: JsonV)
    requires
        has(env, x, v),
        !(v is Str),
    ensures
        fails(env, ExprV::JsonParse { value: Box::new(x) }, EvalErrorV::NotString { label: "JsonParse.value"@, value: v }),
{
}

proof fn json_parse_or_value_must_be_text(env: Fields, x: ExprV, y: ExprV, z: ExprV, v: JsonV)
    requires
        has(env, x, v),
        !(v is Str),
    ensures
        fails(env, ExprV::JsonParseOr { value: Box::new(x), default: Box::new(y) }, EvalErrorV::NotString { label: "JsonParseOr.value"@, value: v }),
{
}

/// A first part that is of the wrong kind is named, with the value that it had.
pub proof fn wrong_operands_are_named(env: Fields, x: ExprV, y: ExprV, z: ExprV, v: JsonV)
    requires
        has(env, x, v),
    ensures
        !(v is Bool) ==> fails(
            env,
            ExprV::If { cond: Box::new(x), then_value: Box::new(y), else_value: Box::new(z) },
            EvalErrorV::NotBool { label: "If.cond"@, value: v },
        ),
        !(v is Bool) ==> fails(
            env,
            ExprV::Or { left: Box::new(x), right: Box::new(y) },
            EvalErrorV::NotBool { label: "Or.left"@, value: v },
        ),
        !(v is Bool) ==> fails(
            env,
            ExprV::And { left: Box::new(x), right: Box::new(y) },
            EvalErrorV::NotBool { label: "And.left"@, value: v },
        ),
        !(v is Int) && !(v is Float) ==> fails(
            env,
            ExprV::Lt { left: Box::new(x), right: Box::new(y) },
            EvalErrorV::NotNumber { label: "Lt.left"@, value: v },
        ),
        !(v is Int) && !(v is Float) ==> fails(
            env,
            ExprV::Add { left: Box::new(x), right: Box::new(y) },
            EvalErrorV::NotNumber { label: "Add.left"@, value: v },
        ),
        !(v is Int) && !(v is Float) ==> fails(
            env,
            ExprV::Sub { left: Box::new(x), right: Box::new(y) },
            EvalErrorV::NotNumber { label: "Sub.left"@, value: v },
        ),
        v is Float ==> fails(
            env,
            ExprV::Lt { left: Box::new(x), right: Box::new(y) },
            EvalErrorV::NotI64 { label: "Lt.left"@, value: v },
        ),
        v is Float ==> fails(
            env,
            ExprV::Add { left: Box::new(x), right: Box::new(y) },
            EvalErrorV::NotI64 { label: "Add.left"@, value: v },
        ),
        v is Float ==> fails(
            env,
            ExprV::Sub { left: Box::new(x), right: Box::new(y) },
            EvalErrorV::NotI64 { label: "Sub.left"@, value: v },
        ),
        !(v is Str) ==> fails(
            env,
            ExprV::JsonParse { value: Box::new(x) },
            EvalErrorV::NotString { label: "JsonParse.value"@, value: v },
        ),
        !(v is Str) ==> fails(
            env,
            ExprV::JsonParseOr { value: Box::new(x), default: Box::new(y) },
            EvalErrorV::NotString { label: "JsonParseOr.value"@, value: v },
        ),
{
    if !(v is Bool) {
        if_cond_must_be_bool(env, x, y, z, v);
    }
    if !(v is Bool) {
        or_left_must_be_bool(env, x, y, z, v);
    }
    if !(v is Bool) {
        and_left_must_be_bool(env, x, y, z, v);
    }
    if !(v is Int) && !(v is Float) {
        lt_left_must_be_number(env, x, y, z, v);
    }
    if !(v is Int) && !(v is Float) {
        add_left_must_be_number(env, x, y, z, v);
    }
    if !(v is Int) && !(v is Float) {
        sub_left_must_be_number(env, x, y, z, v);
    }
    if v is Float {
        lt_left_must_be_whole(env, x, y, z, v);
    }
    if v is Float {
        add_left_must_be_whole(env, x, y, z, v);
    }
    if v is Float {
        sub_left_must_be_whole(env, x, y, z, v);
    }
    if !(v is Str) {
        json_parse_value_must_be_text(env, x, y, z, v);
    }
    if !(v is Str) {
        json_parse_or_value_must_be_text(env, x, y, z, v);
    }
}

proof fn or_right_must_be_bool(env: Fields, x: ExprV, y: ExprV, a: JsonV, v: JsonV)
    requires
        has(env, x, a),
        has(env, y, v),
        a == JsonV::Bool(false) && (!(v is Bool)),
    ensures
        fails(env, ExprV::Or { left: Box::new(x), right: Box::new(y) }, EvalErrorV::NotBool { label: "Or.right"@, value: v }),
{
}

proof fn and_right_must_be_bool(env: Fields, x: ExprV, y: ExprV, a: JsonV, v: JsonV)
    requires
        has(env, x, a),
        has(env, y, v),
        a == JsonV::Bool(true) && (!(v is Bool)),
    ensures
        fails(env, ExprV::And { left: Box::new(x), right: Box::new(y) }, EvalErrorV::NotBool { label: "And.right"@, value: v }),
{
}

proof fn lt_right_must_be_number(env: Fields, x: ExprV, y: ExprV, a: JsonV, v: JsonV)
    requires
        has(env, x, a),
        has(env, y, v),
        small(a) && (!(v is Int) && !(v is Float)),
    ensures
        fails(env, ExprV::Lt { left: Box::new(x), right: Box::new(y) }, EvalErrorV::NotNumber { label: "Lt.right"@, value: v }),
{
}

proof fn add_right_must_be_number(env: Fields, x: ExprV, y: ExprV, a: JsonV, v: JsonV)
    requires
        has(env, x, a),
        has(env, y, v),
        small(a) && (!(v is Int) && !(v is Float)),
    ensures
        fails(env, ExprV::Add { left: Box::new(x), right: Box::new(y) }, EvalErrorV::NotNumber { label: "Add.right"@, value: v }),
{
}

proof fn sub_right_must_be_number(env: Fields, x: ExprV, y: ExprV, a: JsonV, v: JsonV)
    requires
        has(env, x, a),
        has(env, y, v),
        small(a) && (!(v is Int) && !(v is Float)),
    ensures
        fails(env, ExprV::Sub { left: Box::new(x), right: Box::new(y) }, EvalErrorV::NotNumber { label: "Sub.right"@, value: v }),
{
}

proof fn concat_needs_two_lists(env: Fields, x: ExprV, y: ExprV, a: JsonV, v: JsonV)
    requires
        has(env, x, a),
        has(env, y, v),
        (!(a is Array) || !(v is Array)),
    ensures
        fails(env, ExprV::Concat { left: Box::new(x), right: Box::new(y) }, EvalErrorV::NotTwoArrays { left: a, right: v }),
{
}

/// A second part that is of the wrong kind is named where the first one is in order.
pub proof fn wrong_second_operands_are_named(env: Fields, x: ExprV, y: ExprV, a: JsonV, v: JsonV)
    requires
        has(env, x, a),
        has(env, y, v),
    ensures
        a == JsonV::Bool(false) && (!(v is Bool)) ==> fails(
            env,
            ExprV::Or { left: Box::new(x), right: Box::new(y) },
            EvalErrorV::NotBool { label: "Or.right"@, value: v },
        ),
        a == JsonV::Bool(true) && (!(v is Bool)) ==> fails(
            env,
            ExprV::And { left: Box::new(x), right: Box::new(y) },
            EvalErrorV::NotBool { label: "And.right"@, value: v },
        ),
        small(a) && (!(v is Int) && !(v is Float)) ==> fails(
            env,
            ExprV::Lt { left: Box::new(x), right: Box::new(y) },
            EvalErrorV::NotNumber { label: "Lt.right"@, value: v },
        ),
        small(a) && (!(v is Int) && !(v is Float)) ==> fails(
            env,
            ExprV::Add { left: Box::new(x), right: Box::new(y) },
            EvalErrorV::NotNumber { label: "Add.right"@, value: v },
        ),
        small(a) && (!(v is Int) && !(v is Float)) ==> fails(
            env,
            ExprV::Sub { left: Box::new(x), right: Box::new(y) },
            EvalErrorV::NotNumber { label: "Sub.right"@, value: v },
        ),
        (!(a is Array) || !(v is Array)) ==> fails(
            env,
            ExprV::Concat { left: Box::new(x), right: Box::new(y) },
            EvalErrorV::NotTwoArrays { left: a, right: v },
        ),
{
    if a == JsonV::Bool(false) && (!(v is Bool)) {
        or_right_must_be_bool(env, x, y, a, v);
    }
    if a == JsonV::Bool(true) && (!(v is Bool)) {
        and_right_must_be_bool(env, x, y, a, v);
    }
    if small(a) && (!(v is Int) && !(v is Float)) {
        lt_right_must_be_number(env, x, y, a, v);
    }
    if small(a) && (!(v is Int) && !(v is Float)) {
        add_right_must_be_number(env, x, y, a, v);
    }
    if small(a) && (!(v is Int) && !(v is Float)) {
        sub_right_must_be_number(env, x, y, a, v);
    }
    if (!(a is Array) || !(v is Array)) {
        concat_needs_two_lists(env, x, y, a, v);
    }
}

proof fn len_must_have_a_size(env: Fields, n: Seq<char>, y: ExprV, v: JsonV)
    requires
        json::lookup(env, n) == Some(v),
        !(v is Array) && !(v is Str),
    ensures
        fails(env, ExprV::Len { base: n }, EvalErrorV::NotSized { label: "Len"@, value: v }),
{
}

proof fn is_empty_must_have_a_size(env: Fields, n: Seq<char>, y: ExprV, v: JsonV)
    requires
        json::lookup(env, n) == Some(v),
        !(v is Array) && !(v is Str),
    ensures
        fails(env, ExprV::IsEmpty { base: n }, EvalErrorV::NotSized { label: "IsEmpty"@, value: v }),
{
}

proof fn has_pending_tool_calls_must_be_a_list(env: Fields, n: Seq<char>, y: ExprV, v: JsonV)
    requires
        json::lookup(env, n) == Some(v),
        !(v is Array),
    ensures
        fails(env, ExprV::HasPendingToolCalls { base: n }, EvalErrorV::NotArray { label: "HasPendingToolCalls"@, value: v }),
{
}

proof fn push_must_be_a_list(env: Fields, n: Seq<char>, y: ExprV, v: JsonV)
    requires
        json::lookup(env, n) == Some(v),
        !(v is Array),
    ensures
        fails(env, ExprV::Push { base: n, value: Box::new(y) }, EvalErrorV::NotArray { label: "Push"@, value: v }),
{
}

proof fn select_tool_results_must_be_a_list(env: Fields, n: Seq<char>, y: ExprV, v: JsonV)
    requires
        json::lookup(env, n) == Some(v),
        !(v is Array),
    ensures
        fails(env, ExprV::SelectToolResults { history: n, ids: Box::new(y) }, EvalErrorV::NotArray { label: "SelectToolResults"@, value: v }),
{
}

/// A variable that holds the wrong kind of value is told with what it was needed for.
pub proof fn wrong_variables_are_named(env: Fields, n: Seq<char>, y: ExprV, v: JsonV)
    requires
        json::lookup(env, n) == Some(v),
    ensures
        !(v is Array) && !(v is Str) ==> fails(
            env,
            ExprV::Len { base: n },
            EvalErrorV::NotSized { label: "Len"@, value: v },
        ),
        !(v is Array) && !(v is Str) ==> fails(
            env,
            ExprV::IsEmpty { base: n },
            EvalErrorV::NotSized { label: "IsEmpty"@, value: v },
        ),
        !(v is Array) ==> fails(
            env,
            ExprV::HasPendingToolCalls { base: n },
            EvalErrorV::NotArray { label: "HasPendingToolCalls"@, value: v },
        ),
        !(v is Array) ==> fails(
            env,
            ExprV::Push { base: n, value: Box::new(y) },
            EvalErrorV::NotArray { label: "Push"@, value: v },
        ),
        !(v is Array) ==> fails(
            env,
            ExprV::SelectToolResults { history: n, ids: Box::new(y) },
            EvalErrorV::NotArray { label: "SelectToolResults"@, value: v },
        ),
{
    if !(v is Array) && !(v is Str) {
        len_must_have_a_size(env, n, y, v);
    }
    if !(v is Array) && !(v is Str) {
        is_empty_must_have_a_size(env, n, y, v);
    }
    if !(v is Array) {
        has_pending_tool_calls_must_be_a_list(env, n, y, v);
    }
    if !(v is Array) {
        push_must_be_a_list(env, n, y, v);
    }
    if !(v is Array) {
        select_tool_results_must_be_a_list(env, n, y, v);
    }
}

proof fn var_needs_its_variable(env: Fields, n: Seq<char>, f: Seq<char>, y: ExprV)
    requires
        json::lookup(env, n) is None,
    ensures
        fails(env, ExprV::Var(n), EvalErrorV::UnknownVar(n)),
{
}

proof fn field_needs_its_variable(env: Fields, n: Seq<char>, f: Seq<char>, y: ExprV)
    requires
        json::lookup(env, n) is None,
    ensures
        fails(env, ExprV::Field { base: n, field: f }, EvalErrorV::UnknownVar(n)),
{
}

proof fn field_or_needs_its_variable(env: Fields, n: Seq<char>, f: Seq<char>, y: ExprV)
    requires
        json::lookup(env, n) is None,
    ensures
        fails(env, ExprV::FieldOr { base: n, field: f, default: Box::new(y) }, EvalErrorV::UnknownVar(n)),
{
}

proof fn index_needs_its_variable(env: Fields, n: Seq<char>, f: Seq<char>, y: ExprV)
    requires
        json::lookup(env, n) is None,
    ensures
        fails(env, ExprV::Index { base: n, index: Box::new(y) }, EvalErrorV::UnknownVar(n)),
{
}

proof fn len_needs_its_variable(env: Fields, n: Seq<char>, f: Seq<char>, y: ExprV)
    requires
        json::lookup(env, n) is None,
    ensures
        fails(env, ExprV::Len { base: n }, EvalErrorV::UnknownVar(n)),
{
}

proof fn is_empty_needs_its_variable(env: Fields, n: Seq<char>, f: Seq<char>, y: ExprV)
    requires
        json::lookup(env, n) is None,
    ensures
        fails(env, ExprV::IsEmpty { base: n }, EvalErrorV::UnknownVar(n)),
{
}

proof fn has_pending_tool_calls_needs_its_variable(env: Fields, n: Seq<char>, f: Seq<char>, y: ExprV)
    requires
        json::lookup(env, n) is None,
    ensures
        fails(env, ExprV::HasPendingToolCalls { base: n }, EvalErrorV::UnknownVar(n)),
{
}

proof fn push_needs_its_variable(env: Fields, n: Seq<char>, f: Seq<char>, y: ExprV)
    requires
        json::lookup(env, n) is None,
    ensures
        fails(env, ExprV::Push { base: n, value: Box::new(y) }, EvalErrorV::UnknownVar(n)),
{
}

proof fn select_tool_results_needs_its_variable(env: Fields, n: Seq<char>, f: Seq<char>, y: ExprV)
    requires
        json::lookup(env, n) is None,
    ensures
        fails(env, ExprV::SelectToolResults { history: n, ids: Box::new(y) }, EvalErrorV::UnknownVar(n)),
{
}

/// A variable that is not there is named, whatever is to be done with it.
pub proof fn unknown_variables_are_named(env: Fields, n: Seq<char>, f: Seq<char>, y: ExprV)
    requires
        json::lookup(env, n) is None,
    ensures
        fails(env, ExprV::Var(n), EvalErrorV::UnknownVar(n)),
        fails(env, ExprV::Field { base: n, field: f }, EvalErrorV::UnknownVar(n)),
        fails(env, ExprV::FieldOr { base: n, field: f, default: Box::new(y) }, EvalErrorV::UnknownVar(n)),
        fails(env, ExprV::Index { base: n, index: Box::new(y) }, EvalErrorV::UnknownVar(n)),
        fails(env, ExprV::Len { base: n }, EvalErrorV::UnknownVar(n)),
        fails(env, ExprV::IsEmpty { base: n }, EvalErrorV::UnknownVar(n)),
        fails(env, ExprV::HasPendingToolCalls { base: n }, EvalErrorV::UnknownVar(n)),
        fails(env, ExprV::Push { base: n, value: Box::new(y) }, EvalErrorV::UnknownVar(n)),
        fails(env, ExprV::SelectToolResults { history: n, ids: Box::new(y) }, EvalErrorV::UnknownVar(n)),
{
    var_needs_its_variable(env, n, f, y);
    field_needs_its_variable(env, n, f, y);
    field_or_needs_its_variable(env, n, f, y);
    index_needs_its_variable(env, n, f, y);
    len_needs_its_variable(env, n, f, y);
    is_empty_needs_its_variable(env, n, f, y);
    has_pending_tool_calls_needs_its_variable(env, n, f, y);
    push_needs_its_variable(env, n, f, y);
    select_tool_results_needs_its_variable(env, n, f, y);
}

proof fn if_passes_failures_on(env: Fields, x: ExprV, y: ExprV, z: ExprV, e: EvalErrorV)
    requires
        fails(env, x, e),
    ensures
        fails(env, ExprV::If { cond: Box::new(x), then_value: Box::new(y), else_value: Box::new(z) }, e),
{
}

proof fn or_passes_failures_on(env: Fields, x: ExprV, y: ExprV, z: ExprV, e: EvalErrorV)
    requires
        fails(env, x, e),
    ensures
        fails(env, ExprV::Or { left: Box::new(x), right: Box::new(y) }, e),
{
}

proof fn and_passes_failures_on(env: Fields, x: ExprV, y: ExprV, z: ExprV, e: EvalErrorV)
    requires
        fails(env, x, e),
    ensures
        fails(env, ExprV::And { left: Box::new(x), right: Box::new(y) }, e),
{
}

proof fn lt_passes_failures_on(env: Fields, x: ExprV, y: ExprV, z: ExprV, e: EvalErrorV)
    requires
        fails(env, x, e),
    ensures
        fails(env, ExprV::Lt { left: Box::new(x), right: Box::new(y) }, e),
{
}

proof fn eq_passes_failures_on(env: Fields, x: ExprV, y: ExprV, z: ExprV, e: EvalErrorV)
    requires
        fails(env, x, e),
    ensures
        fails(env, ExprV::Eq { left: Box::new(x), right: Box::new(y) }, e),
{
}

proof fn add_passes_failures_on(env: Fields, x: ExprV, y: ExprV, z: ExprV, e: EvalErrorV)
    requires
        fails(env, x, e),
    ensures
        fails(env, ExprV::Add { left: Box::new(x), right: Box::new(y) }, e),
{
}

proof fn sub_passes_failures_on(env: Fields, x: ExprV, y: ExprV, z: ExprV, e: EvalErrorV)
    requires
        fails(env, x, e),
    ensures
        fails(env, ExprV::Sub { left: Box::new(x), right: Box::new(y) }, e),
{
}

proof fn concat_passes_failures_on(env: Fields, x: ExprV, y: ExprV, z: ExprV, e: EvalErrorV)
    requires
        fails(env, x, e),
    ensures
        fails(env, ExprV::Concat { left: Box::new(x), right: Box::new(y) }, e),
{
}

proof fn string_or_passes_failures_on(env: Fields, x: ExprV, y: ExprV, z: ExprV, e: EvalErrorV)
    requires
        fails(env, x, e),
    ensures
        fails(env, ExprV::StringOr { value: Box::new(x), default: Box::new(y) }, e),
{
}

proof fn json_parse_passes_failures_on(env: Fields, x: ExprV, y: ExprV, z: ExprV, e: EvalErrorV)
    requires
        fails(env, x, e),
    ensures
        fails(env, ExprV::JsonParse { value: Box::new(x) }, e),
{
}

proof fn json_parse_or_passes_failures_on(env: Fields, x: ExprV, y: ExprV, z: ExprV, e: EvalErrorV)
    requires
        fails(env, x, e),
    ensures
        fails(env, ExprV::JsonParseOr { value: Box::new(x), default: Box::new(y) }, e),
{
}

proof fn to_string_passes_failures_on(env: Fields, x: ExprV, y: ExprV, z: ExprV, e: EvalErrorV)
    requires
        fails(env, x, e),
    ensures
        fails(env, ExprV::ToString { value: Box::new(x) }, e),
{
}

/// Where the first part of an expression fails, the whole fails with it.
pub proof fn failures_are_passed_on(env: Fields, x: ExprV, y: ExprV, z: ExprV, e: EvalErrorV)
    requires
        fails(env, x, e),
    ensures
        fails(env, ExprV::If { cond: Box::new(x), then_value: Box::new(y), else_value: Box::new(z) }, e),
        fails(env, ExprV::Or { left: Box::new(x), right: Box::new(y) }, e),
        fails(env, ExprV::And { left: Box::new(x), right: Box::new(y) }, e),
        fails(env, ExprV::Lt { left: Box::new(x), right: Box::new(y) }, e),
        fails(env, ExprV::Eq { left: Box::new(x), right: Box::new(y) }, e),
        fails(env, ExprV::Add { left: Box::new(x), right: Box::new(y) }, e),
        fails(env, ExprV::Sub { left: Box::new(x), right: Box::new(y) }, e),
        fails(env, ExprV::Concat { left: Box::new(x), right: Box::new(y) }, e),
        fails(env, ExprV::StringOr { value: Box::new(x), default: Box::new(y) }, e),
        fails(env, ExprV::JsonParse { value: Box::new(x) }, e),
        fails(env, ExprV::JsonParseOr { value: Box::new(x), default: Box::new(y) }, e),
        fails(env, ExprV::ToString { value: Box::new(x) }, e),
{
    if_passes_failures_on(env, x, y, z, e);
    or_passes_failures_on(env, x, y, z, e);
    and_passes_failures_on(env, x, y, z, e);
    lt_passes_failures_on(env, x, y, z, e);
    eq_passes_failures_on(env, x, y, z, e);
    add_passes_failures_on(env, x, y, z, e);
    sub_passes_failures_on(env, x, y, z, e);
    concat_passes_failures_on(env, x, y, z, e);
    string_or_passes_failures_on(env, x, y, z, e);
    json_parse_passes_failures_on(env, x, y, z, e);
    json_parse_or_passes_failures_on(env, x, y, z, e);
    to_string_passes_failures_on(env, x, y, z, e);
}

/// A sum or a difference that does not fit is told by its operation.
pub proof fn results_must_fit(env: Fields, x: ExprV, y: ExprV, a: int, b: int)
    requires
        has(env, x, JsonV::Int(a)),
        has(env, y, JsonV::Int(b)),
        i64::MIN <= a <= i64::MAX,
        i64::MIN <= b <= i64::MAX,
    ensures
        !(i64::MIN <= a + b <= i64::MAX) ==> fails(
            env,
            ExprV::Add { left: Box::new(x), right: Box::new(y) },
            EvalErrorV::OutOfRange { label: "Add"@ },
        ),
        !(i64::MIN <= a - b <= i64::MAX) ==> fails(
            env,
            ExprV::Sub { left: Box::new(x), right: Box::new(y) },
            EvalErrorV::OutOfRange { label: "Sub"@ },
        ),
{
    sums_must_fit(env, x, y, a, b);
    differences_must_fit(env, x, y, a, b);
}

proof fn sums_must_fit(env: Fields, x: ExprV, y: ExprV, a: int, b: int)
    requires
        has(env, x, JsonV::Int(a)),
        has(env, y, JsonV::Int(b)),
        i64::MIN <= a <= i64::MAX,
        i64::MIN <= b <= i64::MAX,
    ensures
        !(i64::MIN <= a + b <= i64::MAX) ==> fails(
            env,
            ExprV::Add { left: Box::new(x), right: Box::new(y) },
            EvalErrorV::OutOfRange { label: "Add"@ },
        ),
{
}

proof fn differences_must_fit(env: Fields, x: ExprV, y: ExprV, a: int, b: int)
    requires
        has(env, x, JsonV::Int(a)),
        has(env, y, JsonV::Int(b)),
        i64::MIN <= a <= i64::MAX,
        i64::MIN <= b <= i64::MAX,
    ensures
        !(i64::MIN <= a - b <= i64::MAX) ==> fails(
            env,
            ExprV::Sub { left: Box::new(x), right: Box::new(y) },
            EvalErrorV::OutOfRange { label: "Sub"@ },
        ),
{
}

/// A field that is not there is told with the value that lacks it; with a default
/// the default is taken.
pub proof fn missing_fields_are_named(
    env: Fields,
    n: Seq<char>,
    f: Seq<char>,
    y: ExprV,
    v: JsonV,
)
    requires
        json::lookup(env, n) == Some(v),
        v.field(f) is None,
    ensures
        fails(env, ExprV::Field { base: n, field: f }, EvalErrorV::FieldNotFound { field: f, value: v }),
        eval::eval(env, ExprV::FieldOr { base: n, field: f, default: Box::new(y) }) == eval::eval(
            env,
            y,
        ),
{
    fields_are_needed(env, n, f, v);
    defaults_are_taken(env, n, f, y, v);
}

proof fn fields_are_needed(env: Fields, n: Seq<char>, f: Seq<char>, v: JsonV)
    requires
        json::lookup(env, n) == Some(v),
        v.field(f) is None,
    ensures
        fails(env, ExprV::Field { base: n, field: f }, EvalErrorV::FieldNotFound { field: f, value: v }),
{
}

proof fn defaults_are_taken(env: Fields, n: Seq<char>, f: Seq<char>, y: ExprV, v: JsonV)
    requires
        json::lookup(env, n) == Some(v),
        v.field(f) is None,
    ensures
        eval::eval(env, ExprV::FieldOr { base: n, field: f, default: Box::new(y) }) == eval::eval(
            env,
            y,
        ),
{
}

/// An item is found at its place; a place behind the end and one before the start
/// are told with their numbers.
pub proof fn items_are_found_at_their_place(
    env: Fields,
    n: Seq<char>,
    items: Seq<JsonV>,
    x: ExprV,
    i: int,
)
    requires
        json::lookup(env, n) == Some(JsonV::Array(items)),
        has(env, x, JsonV::Int(i)),
        i64::MIN <= i <= u32::MAX,
    ensures
        ({
            let e = ExprV::Index { base: n, index: Box::new(x) };
            &&& 0 <= i < items.len() ==> has(env, e, items[i])
            &&& i >= items.len() ==> fails(
                env,
                e,
                EvalErrorV::IndexNotFound { index: i, value: JsonV::Array(items) },
            )
            &&& i < 0 ==> fails(
                env,
                e,
                EvalErrorV::Negative { label: "Index.index"@, number: i },
            )
        }),
{
}

/// A text stands for itself where a text is wanted, and a default for anything else.
pub proof fn texts_or_defaults(env: Fields, x: ExprV, y: ExprV, v: JsonV)
    requires
        has(env, x, v),
    ensures
        v is Str ==> has(env, ExprV::StringOr { value: Box::new(x), default: Box::new(y) }, v),
        !(v is Str) ==> eval::eval(
            env,
            ExprV::StringOr { value: Box::new(x), default: Box::new(y) },
        ) == eval::eval(env, y),
{
}

} // verus!
