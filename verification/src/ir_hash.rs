//! The JSON form of programs, and the identities that are derived from it.
use crate::codec;
use crate::codec::add_field;
use crate::digest;
use crate::digest::tagged_digest_of;
use crate::ir;
use crate::ir::{
    Block, BlockV, Blocks, EffectErrorMode, EvalRequest, EvalRequestV, Expr, ExprV, Instr, InstrV,
    MatchArm, MatchArmV, Pattern, PatternV, Program, ProgramV, PromptRef, PromptRefV, SourceKind,
    Terminator, TerminatorV, Var,
};
use crate::ir_flow;
use crate::ir_flow::ProgramError;
use crate::ir_normalize;
use crate::ir_normalize::normalize_program;
use crate::json;
use crate::json::{Json, JsonV};
use crate::normal_laws;
use crate::op;
use crate::text;
use crate::text::decimal_of;
use vstd::prelude::*;

verus! {

/// An object with 1 field, in the given order.
pub(crate) fn record1(k1: &str, v1: Json) -> (r: Json)
    ensures
        r@ == JsonV::Object(seq![(k1@, v1@)]),
{
    broadcast use json::group_json;

    let mut list: Vec<(String, Json)> = Vec::new();
    add_field(&mut list, k1, v1);
    assert(json::fields(list@) =~= seq![(k1@, v1@)]);
    Json::Object(list)
}

/// An object with 2 fields, in the given order.
pub(crate) fn record2(k1: &str, v1: Json, k2: &str, v2: Json) -> (r: Json)
    ensures
        r@ == JsonV::Object(seq![(k1@, v1@), (k2@, v2@)]),
{
    broadcast use json::group_json;

    let mut list: Vec<(String, Json)> = Vec::new();
    add_field(&mut list, k1, v1);
    add_field(&mut list, k2, v2);
    assert(json::fields(list@) =~= seq![(k1@, v1@), (k2@, v2@)]);
    Json::Object(list)
}

/// An object with 3 fields, in the given order.
pub(crate) fn record3(k1: &str, v1: Json, k2: &str, v2: Json, k3: &str, v3: Json) -> (r: Json)
    ensures
        r@ == JsonV::Object(seq![(k1@, v1@), (k2@, v2@), (k3@, v3@)]),
{
    broadcast use json::group_json;

    let mut list: Vec<(String, Json)> = Vec::new();
    add_field(&mut list, k1, v1);
    add_field(&mut list, k2, v2);
    add_field(&mut list, k3, v3);
    assert(json::fields(list@) =~= seq![(k1@, v1@), (k2@, v2@), (k3@, v3@)]);
    Json::Object(list)
}

/// An object with 4 fields, in the given order.
pub(crate) fn record4(
    k1: &str,
    v1: Json,
    k2: &str,
    v2: Json,
    k3: &str,
    v3: Json,
    k4: &str,
    v4: Json,
) -> (r: Json)
    ensures
        r@ == JsonV::Object(seq![(k1@, v1@), (k2@, v2@), (k3@, v3@), (k4@, v4@)]),
{
    broadcast use json::group_json;

    let mut list: Vec<(String, Json)> = Vec::new();
    add_field(&mut list, k1, v1);
    add_field(&mut list, k2, v2);
    add_field(&mut list, k3, v3);
    add_field(&mut list, k4, v4);
    assert(json::fields(list@) =~= seq![(k1@, v1@), (k2@, v2@), (k3@, v3@), (k4@, v4@)]);
    Json::Object(list)
}

/// An object with 5 fields, in the given order.
pub(crate) fn record5(
    k1: &str,
    v1: Json,
    k2: &str,
    v2: Json,
    k3: &str,
    v3: Json,
    k4: &str,
    v4: Json,
    k5: &str,
    v5: Json,
) -> (r: Json)
    ensures
        r@ == JsonV::Object(seq![(k1@, v1@), (k2@, v2@), (k3@, v3@), (k4@, v4@), (k5@, v5@)]),
{
    broadcast use json::group_json;

    let mut list: Vec<(String, Json)> = Vec::new();
    add_field(&mut list, k1, v1);
    add_field(&mut list, k2, v2);
    add_field(&mut list, k3, v3);
    add_field(&mut list, k4, v4);
    add_field(&mut list, k5, v5);
    assert(json::fields(list@) =~= seq![
        (k1@, v1@),
        (k2@, v2@),
        (k3@, v3@),
        (k4@, v4@),
        (k5@, v5@),
    ]);
    Json::Object(list)
}

/// An object with 6 fields, in the given order.
pub(crate) fn record6(
    k1: &str,
    v1: Json,
    k2: &str,
    v2: Json,
    k3: &str,
    v3: Json,
    k4: &str,
    v4: Json,
    k5: &str,
    v5: Json,
    k6: &str,
    v6: Json,
) -> (r: Json)
    ensures
        r@ == JsonV::Object(seq![
            (k1@, v1@),
            (k2@, v2@),
            (k3@, v3@),
            (k4@, v4@),
            (k5@, v5@),
            (k6@, v6@),
        ]),
{
    broadcast use json::group_json;

    let mut list: Vec<(String, Json)> = Vec::new();
    add_field(&mut list, k1, v1);
    add_field(&mut list, k2, v2);
    add_field(&mut list, k3, v3);
    add_field(&mut list, k4, v4);
    add_field(&mut list, k5, v5);
    add_field(&mut list, k6, v6);
    assert(json::fields(list@) =~= seq![
        (k1@, v1@),
        (k2@, v2@),
        (k3@, v3@),
        (k4@, v4@),
        (k5@, v5@),
        (k6@, v6@),
    ]);
    Json::Object(list)
}

/// The JSON form of an expression.
pub open spec fn expr_json(e: ExprV) -> JsonV
    decreases e,
{
    match e {
        ExprV::Value(x) => JsonV::Object(seq![("Value"@, x)]),
        ExprV::Var(x) => JsonV::Object(seq![("Var"@, JsonV::Str(x))]),
        ExprV::Field {
            base,
            field,
        } => JsonV::Object(seq![(
            "Field"@,
            JsonV::Object(seq![("base"@, JsonV::Str(base)), ("field"@, JsonV::Str(field))]),
        )]),
        ExprV::FieldOr {
            base,
            field,
            default,
        } => JsonV::Object(seq![(
            "FieldOr"@,
            JsonV::Object(seq![
                ("base"@, JsonV::Str(base)),
                ("field"@, JsonV::Str(field)),
                ("default"@, expr_json(*default)),
            ]),
        )]),
        ExprV::StringOr {
            value,
            default,
        } => JsonV::Object(seq![(
            "StringOr"@,
            JsonV::Object(seq![("value"@, expr_json(*value)), ("default"@, expr_json(*default))]),
        )]),
        ExprV::If {
            cond,
            then_value,
            else_value,
        } => JsonV::Object(seq![(
            "If"@,
            JsonV::Object(seq![
                ("cond"@, expr_json(*cond)),
                ("then_value"@, expr_json(*then_value)),
                ("else_value"@, expr_json(*else_value)),
            ]),
        )]),
        ExprV::Index {
            base,
            index,
        } => JsonV::Object(seq![(
            "Index"@,
            JsonV::Object(seq![("base"@, JsonV::Str(base)), ("index"@, expr_json(*index))]),
        )]),
        ExprV::Len { base } => JsonV::Object(seq![(
            "Len"@,
            JsonV::Object(seq![("base"@, JsonV::Str(base))]),
        )]),
        ExprV::IsEmpty { base } => JsonV::Object(seq![(
            "IsEmpty"@,
            JsonV::Object(seq![("base"@, JsonV::Str(base))]),
        )]),
        ExprV::Eq {
            left,
            right,
        } => JsonV::Object(seq![(
            "Eq"@,
            JsonV::Object(seq![("left"@, expr_json(*left)), ("right"@, expr_json(*right))]),
        )]),
        ExprV::Lt {
            left,
            right,
        } => JsonV::Object(seq![(
            "Lt"@,
            JsonV::Object(seq![("left"@, expr_json(*left)), ("right"@, expr_json(*right))]),
        )]),
        ExprV::Or {
            left,
            right,
        } => JsonV::Object(seq![(
            "Or"@,
            JsonV::Object(seq![("left"@, expr_json(*left)), ("right"@, expr_json(*right))]),
        )]),
        ExprV::And {
            left,
            right,
        } => JsonV::Object(seq![(
            "And"@,
            JsonV::Object(seq![("left"@, expr_json(*left)), ("right"@, expr_json(*right))]),
        )]),
        ExprV::HasPendingToolCalls { base } => JsonV::Object(seq![(
            "HasPendingToolCalls"@,
            JsonV::Object(seq![("base"@, JsonV::Str(base))]),
        )]),
        ExprV::Add {
            left,
            right,
        } => JsonV::Object(seq![(
            "Add"@,
            JsonV::Object(seq![("left"@, expr_json(*left)), ("right"@, expr_json(*right))]),
        )]),
        ExprV::Sub {
            left,
            right,
        } => JsonV::Object(seq![(
            "Sub"@,
            JsonV::Object(seq![("left"@, expr_json(*left)), ("right"@, expr_json(*right))]),
        )]),
        ExprV::Push {
            base,
            value,
        } => JsonV::Object(seq![(
            "Push"@,
            JsonV::Object(seq![("base"@, JsonV::Str(base)), ("value"@, expr_json(*value))]),
        )]),
        ExprV::JsonParse { value } => JsonV::Object(seq![(
            "JsonParse"@,
            JsonV::Object(seq![("value"@, expr_json(*value))]),
        )]),
        ExprV::JsonParseOr {
            value,
            default,
        } => JsonV::Object(seq![(
            "JsonParseOr"@,
            JsonV::Object(seq![("value"@, expr_json(*value)), ("default"@, expr_json(*default))]),
        )]),
        ExprV::ToString { value } => JsonV::Object(seq![(
            "ToString"@,
            JsonV::Object(seq![("value"@, expr_json(*value))]),
        )]),
        ExprV::Array(x) => JsonV::Object(seq![("Array"@, JsonV::Array(exprs_json(x)))]),
        ExprV::Object(x) => JsonV::Object(seq![("Object"@, JsonV::Object(named_json(x)))]),
        ExprV::Concat {
            left,
            right,
        } => JsonV::Object(seq![(
            "Concat"@,
            JsonV::Object(seq![("left"@, expr_json(*left)), ("right"@, expr_json(*right))]),
        )]),
        ExprV::SelectToolResults {
            history,
            ids,
        } => JsonV::Object(seq![(
            "SelectToolResults"@,
            JsonV::Object(seq![("history"@, JsonV::Str(history)), ("ids"@, expr_json(*ids))]),
        )]),
    }
}

/// The JSON forms of some expressions.
pub open spec fn exprs_json(items: Seq<ExprV>) -> Seq<JsonV>
    decreases items,
{
    if items.len() == 0 {
        Seq::empty()
    } else {
        exprs_json(items.drop_last()).push(expr_json(items[items.len() - 1]))
    }
}

/// The JSON forms of some named expressions.
pub open spec fn named_json(items: Seq<(Seq<char>, ExprV)>) -> json::Fields
    decreases items,
{
    if items.len() == 0 {
        Seq::empty()
    } else {
        named_json(items.drop_last()).push(
            (items[items.len() - 1].0, expr_json(items[items.len() - 1].1)),
        )
    }
}

/// The JSON form of an expression.
pub fn encode_expr(e: &Expr) -> (r: Json)
    ensures
        r@ == expr_json(e@),
    decreases e,
{
    broadcast use json::group_json;

    match e {
        Expr::Value(x) => record1("Value", x.clone()),
        Expr::Var(x) => record1("Var", Json::Str(x.0.clone())),
        Expr::Field { base, field } => record1(
            "Field",
            record2("base", Json::Str(base.0.clone()), "field", Json::Str(field.clone())),
        ),
        Expr::FieldOr { base, field, default } => record1(
            "FieldOr",
            record3(
                "base",
                Json::Str(base.0.clone()),
                "field",
                Json::Str(field.clone()),
                "default",
                encode_expr(default),
            ),
        ),
        Expr::StringOr { value, default } => record1(
            "StringOr",
            record2("value", encode_expr(value), "default", encode_expr(default)),
        ),
        Expr::If { cond, then_value, else_value } => record1(
            "If",
            record3(
                "cond",
                encode_expr(cond),
                "then_value",
                encode_expr(then_value),
                "else_value",
                encode_expr(else_value),
            ),
        ),
        Expr::Index { base, index } => record1(
            "Index",
            record2("base", Json::Str(base.0.clone()), "index", encode_expr(index)),
        ),
        Expr::Len { base } => record1("Len", record1("base", Json::Str(base.0.clone()))),
        Expr::IsEmpty { base } => record1("IsEmpty", record1("base", Json::Str(base.0.clone()))),
        Expr::Eq { left, right } => record1(
            "Eq",
            record2("left", encode_expr(left), "right", encode_expr(right)),
        ),
        Expr::Lt { left, right } => record1(
            "Lt",
            record2("left", encode_expr(left), "right", encode_expr(right)),
        ),
        Expr::Or { left, right } => record1(
            "Or",
            record2("left", encode_expr(left), "right", encode_expr(right)),
        ),
        Expr::And { left, right } => record1(
            "And",
            record2("left", encode_expr(left), "right", encode_expr(right)),
        ),
        Expr::HasPendingToolCalls { base } => record1(
            "HasPendingToolCalls",
            record1("base", Json::Str(base.0.clone())),
        ),
        Expr::Add { left, right } => record1(
            "Add",
            record2("left", encode_expr(left), "right", encode_expr(right)),
        ),
        Expr::Sub { left, right } => record1(
            "Sub",
            record2("left", encode_expr(left), "right", encode_expr(right)),
        ),
        Expr::Push { base, value } => record1(
            "Push",
            record2("base", Json::Str(base.0.clone()), "value", encode_expr(value)),
        ),
        Expr::JsonParse { value } => record1("JsonParse", record1("value", encode_expr(value))),
        Expr::JsonParseOr { value, default } => record1(
            "JsonParseOr",
            record2("value", encode_expr(value), "default", encode_expr(default)),
        ),
        Expr::ToString { value } => record1("ToString", record1("value", encode_expr(value))),
        Expr::Array(x) => {
            proof {
                ir::expr_view_parts(*e);
            }
            let ghost es = ir::exprs(x@);
            let mut out: Vec<Json> = Vec::new();
            let mut i: usize = 0;
            assert(es.take(0) =~= Seq::empty());
            assert(json::values(out@) =~= Seq::empty());
            while i < x.len()
                invariant
                    i <= x@.len(),
                    decreases_to!(e => x@),
                    es == ir::exprs(x@),
                    json::values(out@) == exprs_json(es.take(i as int)),
                decreases x@.len() - i,
            {
                assert(es.take(i + 1).drop_last() =~= es.take(i as int));
                let ghost before = out@;
                let v = encode_expr(&x[i]);
                out.push(v);
                assert(json::values(out@) == json::values(before).push(v@));
                i += 1;
            }
            assert(es.take(i as int) =~= es);
            record1("Array", Json::Array(out))
        },
        Expr::Object(x) => {
            proof {
                ir::expr_view_parts(*e);
            }
            let ghost es = ir::named_exprs(x@);
            let mut out: Vec<(String, Json)> = Vec::new();
            let mut i: usize = 0;
            assert(es.take(0) =~= Seq::empty());
            assert(json::fields(out@) =~= Seq::empty());
            while i < x.len()
                invariant
                    i <= x@.len(),
                    decreases_to!(e => x@),
                    es == ir::named_exprs(x@),
                    json::fields(out@) == named_json(es.take(i as int)),
                decreases x@.len() - i,
            {
                assert(es.take(i + 1).drop_last() =~= es.take(i as int));
                let v = encode_expr(&x[i].1);
                add_field(&mut out, x[i].0.as_str(), v);
                i += 1;
            }
            assert(es.take(i as int) =~= es);
            record1("Object", Json::Object(out))
        },
        Expr::Concat { left, right } => record1(
            "Concat",
            record2("left", encode_expr(left), "right", encode_expr(right)),
        ),
        Expr::SelectToolResults { history, ids } => record1(
            "SelectToolResults",
            record2("history", Json::Str(history.0.clone()), "ids", encode_expr(ids)),
        ),
    }
}

/// The JSON forms of some expressions.
pub fn encode_exprs(x: &Vec<Expr>) -> (r: Json)
    ensures
        r@ == JsonV::Array(exprs_json(ir::exprs(x@))),
{
    broadcast use json::group_json;

    let ghost es = ir::exprs(x@);
    let mut out: Vec<Json> = Vec::new();
    let mut i: usize = 0;
    assert(es.take(0) =~= Seq::empty());
    assert(json::values(out@) =~= Seq::empty());
    while i < x.len()
        invariant
            i <= x@.len(),
            es == ir::exprs(x@),
            json::values(out@) == exprs_json(es.take(i as int)),
        decreases x@.len() - i,
    {
        assert(es.take(i + 1).drop_last() =~= es.take(i as int));
        let ghost before = out@;
        let v = encode_expr(&x[i]);
        out.push(v);
        assert(json::values(out@) == json::values(before).push(v@));
        i += 1;
    }
    assert(es.take(i as int) =~= es);
    Json::Array(out)
}

/// The JSON form of a list of texts.
pub open spec fn texts_json(list: Seq<Seq<char>>) -> JsonV {
    JsonV::Array(Seq::new(list.len(), |i: int| JsonV::Str(list[i])))
}

/// The JSON form of a list of strings.
pub fn encode_texts(list: &Vec<String>) -> (r: Json)
    ensures
        r@ == texts_json(op::texts(list@)),
{
    broadcast use json::group_json;

    let mut out: Vec<Json> = Vec::new();
    let mut i: usize = 0;
    while i < list.len()
        invariant
            i <= list@.len(),
            out@.len() == i,
            forall|j: int| 0 <= j < i ==> (#[trigger] out@[j])@ == JsonV::Str(list@[j]@),
        decreases list@.len() - i,
    {
        out.push(Json::Str(list[i].clone()));
        i += 1;
    }
    assert(json::values(out@) =~= texts_json(op::texts(list@))->Array_0);
    Json::Array(out)
}

/// The JSON form of a list of variables.
fn encode_vars(list: &Vec<Var>) -> (r: Json)
    ensures
        r@ == texts_json(ir::var_names(list@)),
{
    broadcast use json::group_json;

    let mut out: Vec<Json> = Vec::new();
    let mut i: usize = 0;
    while i < list.len()
        invariant
            i <= list@.len(),
            out@.len() == i,
            forall|j: int| 0 <= j < i ==> (#[trigger] out@[j])@ == JsonV::Str(list@[j].0@),
        decreases list@.len() - i,
    {
        out.push(Json::Str(list[i].0.clone()));
        i += 1;
    }
    assert(json::values(out@) =~= texts_json(ir::var_names(list@))->Array_0);
    Json::Array(out)
}

/// The JSON form of a prompt reference.
pub open spec fn prompt_json(p: PromptRefV) -> JsonV {
    match p {
        PromptRefV::Inline(m) => JsonV::Object(seq![("Inline"@, codec::messages_json(m))]),
        PromptRefV::Var(v) => JsonV::Object(seq![("Var"@, JsonV::Str(v))]),
        PromptRefV::PromptIr(d) => JsonV::Object(seq![("PromptIr"@, d)]),
        PromptRefV::PromptIrVar(v) => JsonV::Object(seq![("PromptIrVar"@, JsonV::Str(v))]),
    }
}

fn encode_prompt(p: &PromptRef) -> (r: Json)
    ensures
        r@ == prompt_json(p@),
{
    match p {
        PromptRef::Inline(m) => record1("Inline", codec::encode_messages(m)),
        PromptRef::Var(v) => record1("Var", Json::Str(v.0.clone())),
        PromptRef::PromptIr(d) => record1("PromptIr", d.clone()),
        PromptRef::PromptIrVar(v) => record1("PromptIrVar", Json::Str(v.0.clone())),
    }
}

/// The JSON form of an evaluation request.
pub open spec fn request_json(q: EvalRequestV) -> JsonV {
    match q {
        EvalRequestV::Shell { command } => JsonV::Object(
            seq![("Shell"@, JsonV::Object(seq![("command"@, expr_json(command))]))],
        ),
        EvalRequestV::Argv { argv } => JsonV::Object(
            seq![("Argv"@, JsonV::Object(seq![("argv"@, JsonV::Array(exprs_json(argv)))]))],
        ),
    }
}

fn encode_request(q: &EvalRequest) -> (r: Json)
    ensures
        r@ == request_json(q@),
{
    match q {
        EvalRequest::Shell { command } => record1(
            "Shell",
            record1("command", encode_expr(command)),
        ),
        EvalRequest::Argv { argv } => record1("Argv", record1("argv", encode_exprs(argv))),
    }
}

/// The JSON form of an error mode.
pub open spec fn mode_json(m: EffectErrorMode) -> JsonV {
    match m {
        EffectErrorMode::Abort => JsonV::Str("abort"@),
        EffectErrorMode::Bind => JsonV::Str("bind"@),
    }
}

fn encode_mode(m: EffectErrorMode) -> (r: Json)
    ensures
        r@ == mode_json(m),
{
    match m {
        EffectErrorMode::Abort => Json::text("abort"),
        EffectErrorMode::Bind => Json::text("bind"),
    }
}

/// The JSON form of a policy that holds an error mode.
pub open spec fn policy_json(m: EffectErrorMode) -> JsonV {
    JsonV::Object(seq![("on_error"@, mode_json(m))])
}

/// The JSON form of an optional size.
pub open spec fn size_json(n: Option<usize>) -> JsonV {
    match n {
        Some(x) => JsonV::Int(x as int),
        None => JsonV::Null,
    }
}

/// The JSON form of an optional source kind.
pub open spec fn kind_json(k: Option<SourceKind>) -> JsonV {
    match k {
        Some(x) => JsonV::Str(x.text()),
        None => JsonV::Null,
    }
}

/// The JSON form of an optional list of texts.
pub open spec fn opt_texts_json(list: Option<Seq<Seq<char>>>) -> JsonV {
    match list {
        Some(l) => texts_json(l),
        None => JsonV::Null,
    }
}

/// The JSON form of an optional expression.
pub open spec fn opt_expr_json(e: Option<ExprV>) -> JsonV {
    match e {
        Some(x) => expr_json(x),
        None => JsonV::Null,
    }
}

/// The JSON form of an optional label.
pub open spec fn opt_label_json(b: Option<u32>) -> JsonV {
    match b {
        Some(d) => JsonV::Int(d as int),
        None => JsonV::Null,
    }
}

/// The JSON form of the policy of an inference.  The tools are left out where
/// they are not narrowed.
pub open spec fn infer_policy_json(m: EffectErrorMode, tools: Option<Seq<Seq<char>>>) -> JsonV {
    match tools {
        Some(l) => JsonV::Object(seq![("on_error"@, mode_json(m)), ("tools"@, texts_json(l))]),
        None => JsonV::Object(seq![("on_error"@, mode_json(m))]),
    }
}

/// The JSON form of the policy of an evaluation.  A gate is named only where
/// there is one.
pub open spec fn eval_policy_json(require_approval: bool) -> JsonV {
    if require_approval {
        JsonV::Object(seq![("require_approval"@, JsonV::Bool(true))])
    } else {
        JsonV::Object(Seq::empty())
    }
}

/// The JSON form of an instruction.
pub open spec fn instr_json(i: InstrV) -> JsonV {
    match i {
        InstrV::Let { out, expr } => JsonV::Object(
            seq![
                (
                    "Let"@,
                    JsonV::Object(seq![("out"@, JsonV::Str(out)), ("expr"@, expr_json(expr))]),
                ),
            ],
        ),
        InstrV::Infer { out, model, prompt, on_error, tools } => JsonV::Object(
            seq![
                (
                    "Infer"@,
                    JsonV::Object(
                        seq![
                            ("out"@, JsonV::Str(out)),
                            ("model"@, expr_json(model)),
                            ("prompt"@, prompt_json(prompt)),
                            ("policy"@, infer_policy_json(on_error, tools)),
                        ],
                    ),
                ),
            ],
        ),
        InstrV::Eval { out, request, require_approval } => JsonV::Object(
            seq![
                (
                    "Eval"@,
                    JsonV::Object(
                        seq![
                            ("out"@, JsonV::Str(out)),
                            ("request"@, request_json(request)),
                            ("policy"@, eval_policy_json(require_approval)),
                        ],
                    ),
                ),
            ],
        ),
        InstrV::Emit { event } => JsonV::Object(
            seq![("Emit"@, JsonV::Object(seq![("event"@, expr_json(event))]))],
        ),
        InstrV::Retrieve { out, query, kind, max_bytes, on_error } => JsonV::Object(
            seq![
                (
                    "Retrieve"@,
                    JsonV::Object(
                        seq![
                            ("out"@, JsonV::Str(out)),
                            ("query"@, expr_json(query)),
                            ("kind"@, kind_json(kind)),
                            ("max_bytes"@, size_json(max_bytes)),
                            ("policy"@, policy_json(on_error)),
                        ],
                    ),
                ),
            ],
        ),
        InstrV::Store { out, sink, op, id, item, on_error } => JsonV::Object(
            seq![
                (
                    "Store"@,
                    JsonV::Object(
                        seq![
                            ("out"@, JsonV::Str(out)),
                            ("sink"@, expr_json(sink)),
                            ("op"@, JsonV::Str(op.text())),
                            ("id"@, opt_expr_json(id)),
                            ("item"@, expr_json(item)),
                            ("policy"@, policy_json(on_error)),
                        ],
                    ),
                ),
            ],
        ),
        InstrV::Tool { out, name, arguments, on_error } => JsonV::Object(
            seq![
                (
                    "Tool"@,
                    JsonV::Object(
                        seq![
                            ("out"@, JsonV::Str(out)),
                            ("name"@, JsonV::Str(name)),
                            ("arguments"@, expr_json(arguments)),
                            ("policy"@, policy_json(on_error)),
                        ],
                    ),
                ),
            ],
        ),
    }
}

fn encode_instr(i: &Instr) -> (r: Json)
    ensures
        r@ == instr_json(i@),
{
    broadcast use json::group_json;

    match i {
        Instr::Let { out, expr } => record1(
            "Let",
            record2("out", Json::Str(out.0.clone()), "expr", encode_expr(expr)),
        ),
        Instr::Infer { out, model, prompt, on_error, tools } => {
            let policy = match tools {
                Some(l) => record2("on_error", encode_mode(*on_error), "tools", encode_texts(l)),
                None => record1("on_error", encode_mode(*on_error)),
            };
            record1(
                "Infer",
                record4(
                    "out",
                    Json::Str(out.0.clone()),
                    "model",
                    encode_expr(model),
                    "prompt",
                    encode_prompt(prompt),
                    "policy",
                    policy,
                ),
            )
        },
        Instr::Eval { out, request, require_approval } => {
            let policy = if *require_approval {
                record1("require_approval", Json::Bool(true))
            } else {
                let list: Vec<(String, Json)> = Vec::new();
                assert(json::fields(list@) =~= Seq::empty());
                Json::Object(list)
            };
            record1(
                "Eval",
                record3(
                    "out",
                    Json::Str(out.0.clone()),
                    "request",
                    encode_request(request),
                    "policy",
                    policy,
                ),
            )
        },
        Instr::Emit { event } => record1("Emit", record1("event", encode_expr(event))),
        Instr::Retrieve { out, query, kind, max_bytes, on_error } => {
            let k = match kind {
                Some(x) => Json::text(x.as_str()),
                None => Json::Null,
            };
            let size = match max_bytes {
                Some(x) => Json::Int(*x as i128),
                None => Json::Null,
            };
            record1(
                "Retrieve",
                record5(
                    "out",
                    Json::Str(out.0.clone()),
                    "query",
                    encode_expr(query),
                    "kind",
                    k,
                    "max_bytes",
                    size,
                    "policy",
                    record1("on_error", encode_mode(*on_error)),
                ),
            )
        },
        Instr::Store { out, sink, op, id, item, on_error } => {
            let target = match id {
                Some(e) => encode_expr(e),
                None => Json::Null,
            };
            record1(
                "Store",
                record6(
                    "out",
                    Json::Str(out.0.clone()),
                    "sink",
                    encode_expr(sink),
                    "op",
                    Json::text(op.name()),
                    "id",
                    target,
                    "item",
                    encode_expr(item),
                    "policy",
                    record1("on_error", encode_mode(*on_error)),
                ),
            )
        },
        Instr::Tool { out, name, arguments, on_error } => record1(
            "Tool",
            record4(
                "out",
                Json::Str(out.0.clone()),
                "name",
                Json::Str(name.clone()),
                "arguments",
                encode_expr(arguments),
                "policy",
                record1("on_error", encode_mode(*on_error)),
            ),
        ),
    }
}

/// The JSON form of a pattern.
pub open spec fn pattern_json(p: PatternV) -> JsonV
    decreases p,
{
    match p {
        PatternV::Null => JsonV::Str("Null"@),
        PatternV::Bool(b) => JsonV::Object(seq![("Bool"@, JsonV::Bool(b))]),
        PatternV::Text(s) => JsonV::Object(seq![("String"@, JsonV::Str(s))]),
        PatternV::Number(n) => JsonV::Object(seq![("Number"@, n)]),
        PatternV::ObjectField { field, pattern } => JsonV::Object(
            seq![
                (
                    "ObjectField"@,
                    JsonV::Object(
                        seq![
                            ("field"@, JsonV::Str(field)),
                            ("pattern"@, pattern_json(*pattern)),
                        ],
                    ),
                ),
            ],
        ),
        PatternV::Any => JsonV::Str("Any"@),
    }
}

fn encode_pattern(p: &Pattern) -> (r: Json)
    ensures
        r@ == pattern_json(p@),
    decreases p,
{
    match p {
        Pattern::Null => Json::text("Null"),
        Pattern::Bool(b) => record1("Bool", Json::Bool(*b)),
        Pattern::Text(s) => record1("String", Json::Str(s.clone())),
        Pattern::Number(n) => record1("Number", n.clone()),
        Pattern::ObjectField { field, pattern } => record1(
            "ObjectField",
            record2("field", Json::Str(field.clone()), "pattern", encode_pattern(pattern)),
        ),
        Pattern::Any => Json::text("Any"),
    }
}

/// The JSON form of an arm.
pub open spec fn arm_json(a: MatchArmV) -> JsonV {
    JsonV::Object(
        seq![
            ("pattern"@, pattern_json(a.pattern)),
            ("block"@, JsonV::Int(a.block as int)),
            ("args"@, JsonV::Array(exprs_json(a.args))),
        ],
    )
}

fn encode_arm(a: &MatchArm) -> (r: Json)
    ensures
        r@ == arm_json(a@),
{
    record3(
        "pattern",
        encode_pattern(&a.pattern),
        "block",
        Json::Int(a.block.0 as i128),
        "args",
        encode_exprs(&a.args),
    )
}

/// The JSON form of a terminator.
pub open spec fn terminator_json(t: TerminatorV) -> JsonV {
    match t {
        TerminatorV::Goto { block, args } => JsonV::Object(
            seq![
                (
                    "Goto"@,
                    JsonV::Object(
                        seq![
                            ("block"@, JsonV::Int(block as int)),
                            ("args"@, JsonV::Array(exprs_json(args))),
                        ],
                    ),
                ),
            ],
        ),
        TerminatorV::If { cond, then_block, then_args, else_block, else_args } => JsonV::Object(
            seq![
                (
                    "If"@,
                    JsonV::Object(
                        seq![
                            ("cond"@, expr_json(cond)),
                            ("then_block"@, JsonV::Int(then_block as int)),
                            ("then_args"@, JsonV::Array(exprs_json(then_args))),
                            ("else_block"@, JsonV::Int(else_block as int)),
                            ("else_args"@, JsonV::Array(exprs_json(else_args))),
                        ],
                    ),
                ),
            ],
        ),
        TerminatorV::Match { value, arms, default, default_args } => JsonV::Object(
            seq![
                (
                    "Match"@,
                    JsonV::Object(
                        seq![
                            ("value"@, expr_json(value)),
                            (
                                "arms"@,
                                JsonV::Array(Seq::new(arms.len(), |i: int| arm_json(arms[i]))),
                            ),
                            ("default"@, opt_label_json(default)),
                            ("default_args"@, JsonV::Array(exprs_json(default_args))),
                        ],
                    ),
                ),
            ],
        ),
        TerminatorV::Return { value } => JsonV::Object(
            seq![("Return"@, JsonV::Object(seq![("value"@, expr_json(value))]))],
        ),
        TerminatorV::Par { branches, join } => JsonV::Object(
            seq![
                (
                    "Par"@,
                    JsonV::Object(
                        seq![
                            (
                                "branches"@,
                                JsonV::Array(
                                    Seq::new(
                                        branches.len(),
                                        |i: int| JsonV::Int(branches[i] as int),
                                    ),
                                ),
                            ),
                            ("join"@, JsonV::Int(join as int)),
                        ],
                    ),
                ),
            ],
        ),
    }
}

fn encode_terminator(t: &Terminator) -> (r: Json)
    ensures
        r@ == terminator_json(t@),
{
    broadcast use json::group_json;

    match t {
        Terminator::Goto { block, args } => record1(
            "Goto",
            record2("block", Json::Int(block.0 as i128), "args", encode_exprs(args)),
        ),
        Terminator::If { cond, then_block, then_args, else_block, else_args } => record1(
            "If",
            record5(
                "cond",
                encode_expr(cond),
                "then_block",
                Json::Int(then_block.0 as i128),
                "then_args",
                encode_exprs(then_args),
                "else_block",
                Json::Int(else_block.0 as i128),
                "else_args",
                encode_exprs(else_args),
            ),
        ),
        Terminator::Match { value, arms, default, default_args } => {
            let ghost all = ir::match_arms(arms@);
            let mut out: Vec<Json> = Vec::new();
            let mut i: usize = 0;
            while i < arms.len()
                invariant
                    i <= arms@.len(),
                    out@.len() == i,
                    all == ir::match_arms(arms@),
                    forall|j: int| 0 <= j < i ==> (#[trigger] out@[j])@ == arm_json(all[j]),
                decreases arms@.len() - i,
            {
                out.push(encode_arm(&arms[i]));
                i += 1;
            }
            assert(json::values(out@) =~= Seq::new(all.len(), |i: int| arm_json(all[i])));
            let d = match default {
                Some(x) => Json::Int(x.0 as i128),
                None => Json::Null,
            };
            record1(
                "Match",
                record4(
                    "value",
                    encode_expr(value),
                    "arms",
                    Json::Array(out),
                    "default",
                    d,
                    "default_args",
                    encode_exprs(default_args),
                ),
            )
        },
        Terminator::Return { value } => record1("Return", record1("value", encode_expr(value))),
        Terminator::Par { branches, join } => {
            let ghost all = ir::labels(branches@);
            let mut out: Vec<Json> = Vec::new();
            let mut i: usize = 0;
            while i < branches.len()
                invariant
                    i <= branches@.len(),
                    out@.len() == i,
                    all == ir::labels(branches@),
                    forall|j: int| 0 <= j < i ==> (#[trigger] out@[j])@ == JsonV::Int(all[j] as int),
                decreases branches@.len() - i,
            {
                out.push(Json::Int(branches[i].0 as i128));
                i += 1;
            }
            assert(json::values(out@) =~= Seq::new(all.len(), |i: int| JsonV::Int(all[i] as int)));
            record1(
                "Par",
                record2("branches", Json::Array(out), "join", Json::Int(join.0 as i128)),
            )
        },
    }
}

/// The JSON form of a block.
pub open spec fn block_json(b: BlockV) -> JsonV {
    JsonV::Object(
        seq![
            ("params"@, texts_json(b.params)),
            (
                "instructions"@,
                JsonV::Array(
                    Seq::new(b.instructions.len(), |i: int| instr_json(b.instructions[i])),
                ),
            ),
            ("terminator"@, terminator_json(b.terminator)),
        ],
    )
}

fn encode_block(b: &Block) -> (r: Json)
    ensures
        r@ == block_json(b@),
{
    broadcast use json::group_json;

    let ghost all = ir::instrs(b.instructions@);
    let mut out: Vec<Json> = Vec::new();
    let mut i: usize = 0;
    while i < b.instructions.len()
        invariant
            i <= b.instructions@.len(),
            out@.len() == i,
            all == ir::instrs(b.instructions@),
            forall|j: int| 0 <= j < i ==> (#[trigger] out@[j])@ == instr_json(all[j]),
        decreases b.instructions@.len() - i,
    {
        out.push(encode_instr(&b.instructions[i]));
        i += 1;
    }
    assert(json::values(out@) =~= Seq::new(all.len(), |i: int| instr_json(all[i])));
    record3(
        "params",
        encode_vars(&b.params),
        "instructions",
        Json::Array(out),
        "terminator",
        encode_terminator(&b.terminator),
    )
}

/// The JSON form of the blocks of a program, in the order of their labels.
pub open spec fn blocks_json(blocks: Blocks) -> JsonV {
    let table = ir::by_label(blocks);
    JsonV::Object(
        Seq::new(
            table.len(),
            |i: int| (text::decimal(table[i].0 as nat), block_json(table[i].1)),
        ),
    )
}

/// What identifies a program: its entry and its table of blocks.  Neither its
/// name nor the order in which the blocks are listed matters.
pub open spec fn program_json(p: ProgramV) -> JsonV {
    JsonV::Object(
        seq![("entry"@, JsonV::Int(p.entry as int)), ("blocks"@, blocks_json(p.blocks))],
    )
}

/// What identifies a program.
pub fn encode_program(p: &Program) -> (r: Json)
    ensures
        r@ == program_json(p@),
{
    broadcast use json::group_json;

    let order = p.label_order();
    let ghost all = p@.blocks;
    let ghost table = ir::picked(all, order@);
    let ghost goal = blocks_json(all)->Object_0;
    let mut out: Vec<(String, Json)> = Vec::new();
    let mut i: usize = 0;
    while i < order.len()
        invariant
            i <= order@.len(),
            all == p@.blocks,
            forall|k: int| 0 <= k < order@.len() ==> (#[trigger] order@[k]) < p.blocks@.len(),
            table == ir::picked(all, order@),
            table == ir::by_label(all),
            goal == blocks_json(all)->Object_0,
            json::fields(out@) == goal.take(i as int),
        decreases order@.len() - i,
    {
        let at = order[i];
        let key = decimal_of(p.blocks[at].0.0 as u128);
        let v = encode_block(&p.blocks[at].1);
        assert(table[i as int] == all[at as int]);
        add_field(&mut out, key.as_str(), v);
        assert(goal.take(i + 1) =~= goal.take(i as int).push(goal[i as int]));
        i += 1;
    }
    assert(goal.take(i as int) =~= goal);
    record2("entry", Json::Int(p.entry.0 as i128), "blocks", Json::Object(out))
}

/// The hash of a program.
pub open spec fn program_digest(p: ProgramV) -> Seq<char> {
    digest::tagged_digest(json::json_text(program_json(p)))
}

/// The hash of a program as it stands.
pub fn program_hash(p: &Program) -> (r: String)
    ensures
        r@ == program_digest(p@),
        digest::is_tagged(r@),
{
    tagged_digest_of(encode_program(p).to_text().as_str())
}

/// The hash of the canonical form of a program that has one.
pub open spec fn canonical_digest(p: ProgramV) -> Option<Seq<char>> {
    match ir_normalize::canonical_form(p) {
        Some(q) => Some(program_digest(q)),
        None => None,
    }
}

/// The hash of the canonical form of a program.
pub fn canonical_program_hash(p: &Program) -> (r: Result<String, ProgramError>)
    ensures
        match r {
            Ok(h) => canonical_digest(p@) == Some(h@) && digest::is_tagged(h@),
            Err(e) => canonical_digest(p@) is None && ir_normalize::is_in_the_way(p@, e@),
        },
        ir_flow::valid(p@) && normal_laws::sequential(p@) ==> r is Ok,
{
    let q = normalize_program(p)?;
    Ok(program_hash(&q))
}

} // verus!
