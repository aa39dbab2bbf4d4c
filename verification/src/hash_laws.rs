//! What tells programs apart: the hash of a program is the digest of a text, and
//! different programs have different texts.
use crate::ir;
use crate::ir::{
    BlockV, Blocks, EffectErrorMode, EvalRequestV, ExprV, InstrV, MatchArmV, PatternV, ProgramV,
    PromptRefV, SourceKind, StoreOp, TerminatorV,
};
use crate::ir_hash;
use crate::json;
use crate::json::{Fields, JsonV};
use crate::json_laws;
use crate::text;
use vstd::prelude::*;

verus! {

/// How long a tag is, its second character and its last.
spec fn mark(s: Seq<char>) -> (nat, char, char) {
    (s.len(), s[1], s[s.len() - 1])
}

/// The tag of an expression.
spec fn tag(e: ExprV) -> Seq<char> {
    match e {
        ExprV::Value(_) => "Value"@,
        ExprV::Var(_) => "Var"@,
        ExprV::Field { .. } => "Field"@,
        ExprV::FieldOr { .. } => "FieldOr"@,
        ExprV::StringOr { .. } => "StringOr"@,
        ExprV::If { .. } => "If"@,
        ExprV::Index { .. } => "Index"@,
        ExprV::Len { .. } => "Len"@,
        ExprV::IsEmpty { .. } => "IsEmpty"@,
        ExprV::Eq { .. } => "Eq"@,
        ExprV::Lt { .. } => "Lt"@,
        ExprV::Or { .. } => "Or"@,
        ExprV::And { .. } => "And"@,
        ExprV::HasPendingToolCalls { .. } => "HasPendingToolCalls"@,
        ExprV::Add { .. } => "Add"@,
        ExprV::Sub { .. } => "Sub"@,
        ExprV::Push { .. } => "Push"@,
        ExprV::JsonParse { .. } => "JsonParse"@,
        ExprV::JsonParseOr { .. } => "JsonParseOr"@,
        ExprV::ToString { .. } => "ToString"@,
        ExprV::Array(_) => "Array"@,
        ExprV::Object(_) => "Object"@,
        ExprV::Concat { .. } => "Concat"@,
        ExprV::SelectToolResults { .. } => "SelectToolResults"@,
    }
}

proof fn tags_are_marked(e: ExprV)
    ensures
        mark(tag(e)) == match e {
            ExprV::Value(_) => (5nat, 'a', 'e'),
            ExprV::Var(_) => (3nat, 'a', 'r'),
            ExprV::Field { .. } => (5nat, 'i', 'd'),
            ExprV::FieldOr { .. } => (7nat, 'i', 'r'),
            ExprV::StringOr { .. } => (8nat, 't', 'r'),
            ExprV::If { .. } => (2nat, 'f', 'f'),
            ExprV::Index { .. } => (5nat, 'n', 'x'),
            ExprV::Len { .. } => (3nat, 'e', 'n'),
            ExprV::IsEmpty { .. } => (7nat, 's', 'y'),
            ExprV::Eq { .. } => (2nat, 'q', 'q'),
            ExprV::Lt { .. } => (2nat, 't', 't'),
            ExprV::Or { .. } => (2nat, 'r', 'r'),
            ExprV::And { .. } => (3nat, 'n', 'd'),
            ExprV::HasPendingToolCalls { .. } => (19nat, 'a', 's'),
            ExprV::Add { .. } => (3nat, 'd', 'd'),
            ExprV::Sub { .. } => (3nat, 'u', 'b'),
            ExprV::Push { .. } => (4nat, 'u', 'h'),
            ExprV::JsonParse { .. } => (9nat, 's', 'e'),
            ExprV::JsonParseOr { .. } => (11nat, 's', 'r'),
            ExprV::ToString { .. } => (8nat, 'o', 'g'),
            ExprV::Array(_) => (5nat, 'r', 'y'),
            ExprV::Object(_) => (6nat, 'b', 't'),
            ExprV::Concat { .. } => (6nat, 'o', 't'),
            ExprV::SelectToolResults { .. } => (17nat, 'e', 's'),
        },
{
    reveal_strlit("Value");
    reveal_strlit("Var");
    reveal_strlit("Field");
    reveal_strlit("FieldOr");
    reveal_strlit("StringOr");
    reveal_strlit("If");
    reveal_strlit("Index");
    reveal_strlit("Len");
    reveal_strlit("IsEmpty");
    reveal_strlit("Eq");
    reveal_strlit("Lt");
    reveal_strlit("Or");
    reveal_strlit("And");
    reveal_strlit("HasPendingToolCalls");
    reveal_strlit("Add");
    reveal_strlit("Sub");
    reveal_strlit("Push");
    reveal_strlit("JsonParse");
    reveal_strlit("JsonParseOr");
    reveal_strlit("ToString");
    reveal_strlit("Array");
    reveal_strlit("Object");
    reveal_strlit("Concat");
    reveal_strlit("SelectToolResults");
}

/// What stands under the tag of an expression.
spec fn body(e: ExprV) -> JsonV {
    ir_hash::expr_json(e)->Object_0[0].1
}

proof fn expressions_are_tagged(e: ExprV)
    ensures
        ir_hash::expr_json(e) == JsonV::Object(seq![(tag(e), body(e))]),
{
}

proof fn records_agree(a: Fields, b: Fields)
    requires
        JsonV::Object(a) == JsonV::Object(b),
    ensures
        a == b,
{
}

/// Which expression it is.
spec fn number(e: ExprV) -> int {
    match e {
        ExprV::Value(_) => 0,
        ExprV::Var(_) => 1,
        ExprV::Field { .. } => 2,
        ExprV::FieldOr { .. } => 3,
        ExprV::StringOr { .. } => 4,
        ExprV::If { .. } => 5,
        ExprV::Index { .. } => 6,
        ExprV::Len { .. } => 7,
        ExprV::IsEmpty { .. } => 8,
        ExprV::Eq { .. } => 9,
        ExprV::Lt { .. } => 10,
        ExprV::Or { .. } => 11,
        ExprV::And { .. } => 12,
        ExprV::HasPendingToolCalls { .. } => 13,
        ExprV::Add { .. } => 14,
        ExprV::Sub { .. } => 15,
        ExprV::Push { .. } => 16,
        ExprV::JsonParse { .. } => 17,
        ExprV::JsonParseOr { .. } => 18,
        ExprV::ToString { .. } => 19,
        ExprV::Array(_) => 20,
        ExprV::Object(_) => 21,
        ExprV::Concat { .. } => 22,
        ExprV::SelectToolResults { .. } => 23,
    }
}

#[verifier::rlimit(60)]
proof fn tags_tell(a: ExprV, b: ExprV)
    requires
        tag(a) == tag(b),
    ensures
        number(a) == number(b),
{
    tags_are_marked(a);
    tags_are_marked(b);
}

/// Different expressions have different JSON forms.
#[verifier::rlimit(60)]
pub proof fn expressions_are_told_apart(a: ExprV, b: ExprV)
    requires
        ir_hash::expr_json(a) == ir_hash::expr_json(b),
    ensures
        a == b,
    decreases a,
{
    expressions_are_tagged(a);
    expressions_are_tagged(b);
    let x = seq![(tag(a), body(a))];
    let y = seq![(tag(b), body(b))];
    records_agree(x, y);
    assert(x[0] == y[0]);
    tags_tell(a, b);
    match (a, b) {
        (ExprV::Value(_), ExprV::Value(_)) => {},
        (ExprV::Var(_), ExprV::Var(_)) => {},
        (ExprV::Field { base: p0, field: p1 }, ExprV::Field { base: q0, field: q1 }) => {
            let p = body(a)->Object_0;
            let q = body(b)->Object_0;
            assert(p[0] == q[0] && p[1] == q[1]);
        },
        (
            ExprV::FieldOr { base: p0, field: p1, default: p2 },
            ExprV::FieldOr { base: q0, field: q1, default: q2 },
        ) => {
            let p = body(a)->Object_0;
            let q = body(b)->Object_0;
            assert(p[0] == q[0] && p[1] == q[1] && p[2] == q[2]);
            expressions_are_told_apart(*p2, *q2);
        },
        (
            ExprV::StringOr { value: p0, default: p1 },
            ExprV::StringOr { value: q0, default: q1 },
        ) => {
            let p = body(a)->Object_0;
            let q = body(b)->Object_0;
            assert(p[0] == q[0] && p[1] == q[1]);
            expressions_are_told_apart(*p0, *q0);
            expressions_are_told_apart(*p1, *q1);
        },
        (
            ExprV::If { cond: p0, then_value: p1, else_value: p2 },
            ExprV::If { cond: q0, then_value: q1, else_value: q2 },
        ) => {
            let p = body(a)->Object_0;
            let q = body(b)->Object_0;
            assert(p[0] == q[0] && p[1] == q[1] && p[2] == q[2]);
            expressions_are_told_apart(*p0, *q0);
            expressions_are_told_apart(*p1, *q1);
            expressions_are_told_apart(*p2, *q2);
        },
        (ExprV::Index { base: p0, index: p1 }, ExprV::Index { base: q0, index: q1 }) => {
            let p = body(a)->Object_0;
            let q = body(b)->Object_0;
            assert(p[0] == q[0] && p[1] == q[1]);
            expressions_are_told_apart(*p1, *q1);
        },
        (ExprV::Len { base: p0 }, ExprV::Len { base: q0 }) => {
            let p = body(a)->Object_0;
            let q = body(b)->Object_0;
            assert(p[0] == q[0]);
        },
        (ExprV::IsEmpty { base: p0 }, ExprV::IsEmpty { base: q0 }) => {
            let p = body(a)->Object_0;
            let q = body(b)->Object_0;
            assert(p[0] == q[0]);
        },
        (ExprV::Eq { left: p0, right: p1 }, ExprV::Eq { left: q0, right: q1 }) => {
            let p = body(a)->Object_0;
            let q = body(b)->Object_0;
            assert(p[0] == q[0] && p[1] == q[1]);
            expressions_are_told_apart(*p0, *q0);
            expressions_are_told_apart(*p1, *q1);
        },
        (ExprV::Lt { left: p0, right: p1 }, ExprV::Lt { left: q0, right: q1 }) => {
            let p = body(a)->Object_0;
            let q = body(b)->Object_0;
            assert(p[0] == q[0] && p[1] == q[1]);
            expressions_are_told_apart(*p0, *q0);
            expressions_are_told_apart(*p1, *q1);
        },
        (ExprV::Or { left: p0, right: p1 }, ExprV::Or { left: q0, right: q1 }) => {
            let p = body(a)->Object_0;
            let q = body(b)->Object_0;
            assert(p[0] == q[0] && p[1] == q[1]);
            expressions_are_told_apart(*p0, *q0);
            expressions_are_told_apart(*p1, *q1);
        },
        (ExprV::And { left: p0, right: p1 }, ExprV::And { left: q0, right: q1 }) => {
            let p = body(a)->Object_0;
            let q = body(b)->Object_0;
            assert(p[0] == q[0] && p[1] == q[1]);
            expressions_are_told_apart(*p0, *q0);
            expressions_are_told_apart(*p1, *q1);
        },
        (ExprV::HasPendingToolCalls { base: p0 }, ExprV::HasPendingToolCalls { base: q0 }) => {
            let p = body(a)->Object_0;
            let q = body(b)->Object_0;
            assert(p[0] == q[0]);
        },
        (ExprV::Add { left: p0, right: p1 }, ExprV::Add { left: q0, right: q1 }) => {
            let p = body(a)->Object_0;
            let q = body(b)->Object_0;
            assert(p[0] == q[0] && p[1] == q[1]);
            expressions_are_told_apart(*p0, *q0);
            expressions_are_told_apart(*p1, *q1);
        },
        (ExprV::Sub { left: p0, right: p1 }, ExprV::Sub { left: q0, right: q1 }) => {
            let p = body(a)->Object_0;
            let q = body(b)->Object_0;
            assert(p[0] == q[0] && p[1] == q[1]);
            expressions_are_told_apart(*p0, *q0);
            expressions_are_told_apart(*p1, *q1);
        },
        (ExprV::Push { base: p0, value: p1 }, ExprV::Push { base: q0, value: q1 }) => {
            let p = body(a)->Object_0;
            let q = body(b)->Object_0;
            assert(p[0] == q[0] && p[1] == q[1]);
            expressions_are_told_apart(*p1, *q1);
        },
        (ExprV::JsonParse { value: p0 }, ExprV::JsonParse { value: q0 }) => {
            let p = body(a)->Object_0;
            let q = body(b)->Object_0;
            assert(p[0] == q[0]);
            expressions_are_told_apart(*p0, *q0);
        },
        (
            ExprV::JsonParseOr { value: p0, default: p1 },
            ExprV::JsonParseOr { value: q0, default: q1 },
        ) => {
            let p = body(a)->Object_0;
            let q = body(b)->Object_0;
            assert(p[0] == q[0] && p[1] == q[1]);
            expressions_are_told_apart(*p0, *q0);
            expressions_are_told_apart(*p1, *q1);
        },
        (ExprV::ToString { value: p0 }, ExprV::ToString { value: q0 }) => {
            let p = body(a)->Object_0;
            let q = body(b)->Object_0;
            assert(p[0] == q[0]);
            expressions_are_told_apart(*p0, *q0);
        },
        (ExprV::Array(p), ExprV::Array(q)) => {
            lists_are_told_apart(p, q);
        },
        (ExprV::Object(p), ExprV::Object(q)) => {
            named_are_told_apart(p, q);
        },
        (ExprV::Concat { left: p0, right: p1 }, ExprV::Concat { left: q0, right: q1 }) => {
            let p = body(a)->Object_0;
            let q = body(b)->Object_0;
            assert(p[0] == q[0] && p[1] == q[1]);
            expressions_are_told_apart(*p0, *q0);
            expressions_are_told_apart(*p1, *q1);
        },
        (
            ExprV::SelectToolResults { history: p0, ids: p1 },
            ExprV::SelectToolResults { history: q0, ids: q1 },
        ) => {
            let p = body(a)->Object_0;
            let q = body(b)->Object_0;
            assert(p[0] == q[0] && p[1] == q[1]);
            expressions_are_told_apart(*p1, *q1);
        },
        _ => {},
    }
}

proof fn lists_are_told_apart(a: Seq<ExprV>, b: Seq<ExprV>)
    requires
        ir_hash::exprs_json(a) == ir_hash::exprs_json(b),
    ensures
        a == b,
    decreases a,
{
    let x = ir_hash::exprs_json(a);
    let y = ir_hash::exprs_json(b);
    if a.len() == 0 && b.len() == 0 {
        assert(a =~= b);
    } else if a.len() == 0 || b.len() == 0 {
        assert(x.len() == 0 || y.len() == 0);
        assert(false);
    } else {
        let m = ir_hash::expr_json(a[a.len() - 1]);
        let n = ir_hash::expr_json(b[b.len() - 1]);
        assert(x.last() == m && y.last() == n);
        assert(x.drop_last() =~= ir_hash::exprs_json(a.drop_last()));
        assert(y.drop_last() =~= ir_hash::exprs_json(b.drop_last()));
        lists_are_told_apart(a.drop_last(), b.drop_last());
        expressions_are_told_apart(a[a.len() - 1], b[b.len() - 1]);
        assert(a =~= a.drop_last().push(a.last()));
        assert(b =~= b.drop_last().push(b.last()));
    }
}

proof fn named_are_told_apart(a: Seq<(Seq<char>, ExprV)>, b: Seq<(Seq<char>, ExprV)>)
    requires
        ir_hash::named_json(a) == ir_hash::named_json(b),
    ensures
        a == b,
    decreases a,
{
    let x = ir_hash::named_json(a);
    let y = ir_hash::named_json(b);
    if a.len() == 0 && b.len() == 0 {
        assert(a =~= b);
    } else if a.len() == 0 || b.len() == 0 {
        assert(x.len() == 0 || y.len() == 0);
        assert(false);
    } else {
        let m = a[a.len() - 1];
        let n = b[b.len() - 1];
        assert(x.last() == (m.0, ir_hash::expr_json(m.1)));
        assert(y.last() == (n.0, ir_hash::expr_json(n.1)));
        assert(x.drop_last() =~= ir_hash::named_json(a.drop_last()));
        assert(y.drop_last() =~= ir_hash::named_json(b.drop_last()));
        named_are_told_apart(a.drop_last(), b.drop_last());
        expressions_are_told_apart(m.1, n.1);
        assert(a =~= a.drop_last().push(a.last()));
        assert(b =~= b.drop_last().push(b.last()));
    }
}

proof fn texts_are_told_apart(a: Seq<Seq<char>>, b: Seq<Seq<char>>)
    requires
        ir_hash::texts_json(a) == ir_hash::texts_json(b),
    ensures
        a == b,
{
    let x = ir_hash::texts_json(a)->Array_0;
    let y = ir_hash::texts_json(b)->Array_0;
    assert(x.len() == y.len());
    assert forall|i: int| 0 <= i < a.len() implies a[i] == b[i] by {
        assert(x[i] == y[i]);
    }
    assert(a =~= b);
}

proof fn modes_are_told_apart(a: EffectErrorMode, b: EffectErrorMode)
    requires
        ir_hash::mode_json(a) == ir_hash::mode_json(b),
    ensures
        a == b,
{
    reveal_strlit("abort");
    reveal_strlit("bind");
    assert("abort"@.len() == 5 && "bind"@.len() == 4);
}

proof fn policies_are_told_apart(a: EffectErrorMode, b: EffectErrorMode)
    requires
        ir_hash::policy_json(a) == ir_hash::policy_json(b),
    ensures
        a == b,
{
    assert(ir_hash::policy_json(a)->Object_0[0] == ir_hash::policy_json(b)->Object_0[0]);
    modes_are_told_apart(a, b);
}

proof fn infer_policies_are_told_apart(
    a: EffectErrorMode,
    s: Option<Seq<Seq<char>>>,
    b: EffectErrorMode,
    t: Option<Seq<Seq<char>>>,
)
    requires
        ir_hash::infer_policy_json(a, s) == ir_hash::infer_policy_json(b, t),
    ensures
        a == b,
        s == t,
{
    let x = ir_hash::infer_policy_json(a, s)->Object_0;
    let y = ir_hash::infer_policy_json(b, t)->Object_0;
    assert(x.len() == y.len());
    assert(x[0] == y[0]);
    modes_are_told_apart(a, b);
    if s is Some && t is Some {
        assert(x[1] == y[1]);
        texts_are_told_apart(s->0, t->0);
    }
}

proof fn eval_policies_are_told_apart(a: bool, b: bool)
    requires
        ir_hash::eval_policy_json(a) == ir_hash::eval_policy_json(b),
    ensures
        a == b,
{
    let x = ir_hash::eval_policy_json(a)->Object_0;
    let y = ir_hash::eval_policy_json(b)->Object_0;
    assert(x.len() == y.len());
}

proof fn kinds_are_told_apart(a: Option<SourceKind>, b: Option<SourceKind>)
    requires
        ir_hash::kind_json(a) == ir_hash::kind_json(b),
    ensures
        a == b,
{
    reveal_strlit("Temporal");
    reveal_strlit("Semantic");
    reveal_strlit("Knowledge");
    assert("Temporal"@.len() == 8 && "Semantic"@.len() == 8 && "Knowledge"@.len() == 9);
    assert("Temporal"@[0] == 'T' && "Semantic"@[0] == 'S');
}

proof fn store_ops_are_told_apart(a: StoreOp, b: StoreOp)
    requires
        a.text() == b.text(),
    ensures
        a == b,
{
    reveal_strlit("create");
    reveal_strlit("update");
    reveal_strlit("delete");
    assert("create"@[0] == 'c' && "update"@[0] == 'u' && "delete"@[0] == 'd');
}

proof fn options_are_told_apart(a: Option<ExprV>, b: Option<ExprV>)
    requires
        ir_hash::opt_expr_json(a) == ir_hash::opt_expr_json(b),
    ensures
        a == b,
{
    if let Some(x) = a {
        expressions_are_tagged(x);
    }
    if let Some(y) = b {
        expressions_are_tagged(y);
    }
    if a is Some && b is Some {
        expressions_are_told_apart(a->0, b->0);
    }
}

/// Whether a prompt stands elsewhere: its messages are no part of the program.
pub open spec fn is_reference(p: PromptRefV) -> bool {
    !(p is Inline)
}

proof fn prompts_are_told_apart(a: PromptRefV, b: PromptRefV)
    requires
        is_reference(a),
        is_reference(b),
        ir_hash::prompt_json(a) == ir_hash::prompt_json(b),
    ensures
        a == b,
{
    reveal_strlit("Var");
    reveal_strlit("PromptIr");
    reveal_strlit("PromptIrVar");
    assert("Var"@.len() == 3 && "PromptIr"@.len() == 8 && "PromptIrVar"@.len() == 11);
    assert(ir_hash::prompt_json(a)->Object_0[0] == ir_hash::prompt_json(b)->Object_0[0]);
}

proof fn requests_are_told_apart(a: EvalRequestV, b: EvalRequestV)
    requires
        ir_hash::request_json(a) == ir_hash::request_json(b),
    ensures
        a == b,
{
    reveal_strlit("Shell");
    reveal_strlit("Argv");
    assert("Shell"@.len() == 5 && "Argv"@.len() == 4);
    let x = ir_hash::request_json(a)->Object_0;
    let y = ir_hash::request_json(b)->Object_0;
    assert(x[0] == y[0]);
    assert(x[0].1->Object_0[0] == y[0].1->Object_0[0]);
    match (a, b) {
        (EvalRequestV::Shell { command: p }, EvalRequestV::Shell { command: q }) => {
            expressions_are_told_apart(p, q);
        },
        (EvalRequestV::Argv { argv: p }, EvalRequestV::Argv { argv: q }) => {
            lists_are_told_apart(p, q);
        },
        _ => {},
    }
}

/// Whether the messages of an instruction stand elsewhere.
pub open spec fn refers(i: InstrV) -> bool {
    match i {
        InstrV::Infer { prompt, .. } => is_reference(prompt),
        _ => true,
    }
}

/// Different instructions have different JSON forms.
#[verifier::rlimit(60)]
pub proof fn instructions_are_told_apart(a: InstrV, b: InstrV)
    requires
        refers(a),
        refers(b),
        ir_hash::instr_json(a) == ir_hash::instr_json(b),
    ensures
        a == b,
{
    reveal_strlit("Let");
    reveal_strlit("Infer");
    reveal_strlit("Eval");
    reveal_strlit("Emit");
    reveal_strlit("Retrieve");
    reveal_strlit("Store");
    reveal_strlit("Tool");
    assert(mark("Let"@) == (3nat, 'e', 't'));
    assert(mark("Infer"@) == (5nat, 'n', 'r'));
    assert(mark("Eval"@) == (4nat, 'v', 'l'));
    assert(mark("Emit"@) == (4nat, 'm', 't'));
    assert(mark("Retrieve"@) == (8nat, 'e', 'e'));
    assert(mark("Store"@) == (5nat, 't', 'e'));
    assert(mark("Tool"@) == (4nat, 'o', 'l'));
    let x = ir_hash::instr_json(a)->Object_0;
    let y = ir_hash::instr_json(b)->Object_0;
    assert(x[0] == y[0]);
    let p = x[0].1->Object_0;
    let q = y[0].1->Object_0;
    match (a, b) {
        (InstrV::Let { expr: e, .. }, InstrV::Let { expr: f, .. }) => {
            assert(p[0] == q[0] && p[1] == q[1]);
            expressions_are_told_apart(e, f);
        },
        (
            InstrV::Infer { model: e, prompt: m, on_error: u, tools: s, .. },
            InstrV::Infer { model: f, prompt: n, on_error: v, tools: t, .. },
        ) => {
            assert(p[0] == q[0] && p[1] == q[1] && p[2] == q[2] && p[3] == q[3]);
            expressions_are_told_apart(e, f);
            prompts_are_told_apart(m, n);
            infer_policies_are_told_apart(u, s, v, t);
        },
        (
            InstrV::Eval { request: e, require_approval: u, .. },
            InstrV::Eval { request: f, require_approval: v, .. },
        ) => {
            assert(p[0] == q[0] && p[1] == q[1] && p[2] == q[2]);
            requests_are_told_apart(e, f);
            eval_policies_are_told_apart(u, v);
        },
        (InstrV::Emit { event: e }, InstrV::Emit { event: f }) => {
            assert(p[0] == q[0]);
            expressions_are_told_apart(e, f);
        },
        (
            InstrV::Retrieve { query: e, kind: s, max_bytes: m, on_error: u, .. },
            InstrV::Retrieve { query: f, kind: t, max_bytes: n, on_error: v, .. },
        ) => {
            assert(p[0] == q[0] && p[1] == q[1] && p[2] == q[2] && p[3] == q[3] && p[4] == q[4]);
            expressions_are_told_apart(e, f);
            kinds_are_told_apart(s, t);
            policies_are_told_apart(u, v);
            assert(m == n);
        },
        (
            InstrV::Store { sink: e, op: s, id: m, item: g, on_error: u, .. },
            InstrV::Store { sink: f, op: t, id: n, item: h, on_error: v, .. },
        ) => {
            assert(p[0] == q[0] && p[1] == q[1] && p[2] == q[2] && p[3] == q[3] && p[4] == q[4]
                && p[5] == q[5]);
            expressions_are_told_apart(e, f);
            store_ops_are_told_apart(s, t);
            options_are_told_apart(m, n);
            expressions_are_told_apart(g, h);
            policies_are_told_apart(u, v);
        },
        (
            InstrV::Tool { arguments: e, on_error: u, .. },
            InstrV::Tool { arguments: f, on_error: v, .. },
        ) => {
            assert(p[0] == q[0] && p[1] == q[1] && p[2] == q[2] && p[3] == q[3]);
            expressions_are_told_apart(e, f);
            policies_are_told_apart(u, v);
        },
        _ => {},
    }
}

proof fn patterns_are_told_apart(a: PatternV, b: PatternV)
    requires
        ir_hash::pattern_json(a) == ir_hash::pattern_json(b),
    ensures
        a == b,
    decreases a,
{
    reveal_strlit("Null");
    reveal_strlit("Any");
    reveal_strlit("Bool");
    reveal_strlit("String");
    reveal_strlit("Number");
    reveal_strlit("ObjectField");
    assert(mark("Null"@) == (4nat, 'u', 'l') && mark("Any"@) == (3nat, 'n', 'y'));
    assert(mark("Bool"@) == (4nat, 'o', 'l') && mark("String"@) == (6nat, 't', 'g'));
    assert(mark("Number"@) == (6nat, 'u', 'r') && mark("ObjectField"@) == (11nat, 'b', 'd'));
    let m = ir_hash::pattern_json(a);
    let n = ir_hash::pattern_json(b);
    if m is Object && n is Object {
        let x = m->Object_0;
        let y = n->Object_0;
        assert(x[0] == y[0]);
        match (a, b) {
            (
                PatternV::ObjectField { pattern: p, .. },
                PatternV::ObjectField { pattern: q, .. },
            ) => {
                let s = x[0].1->Object_0;
                let t = y[0].1->Object_0;
                assert(s[0] == t[0] && s[1] == t[1]);
                patterns_are_told_apart(*p, *q);
            },
            _ => {},
        }
    }
}

proof fn arms_are_told_apart(a: MatchArmV, b: MatchArmV)
    requires
        ir_hash::arm_json(a) == ir_hash::arm_json(b),
    ensures
        a == b,
{
    let x = ir_hash::arm_json(a)->Object_0;
    let y = ir_hash::arm_json(b)->Object_0;
    assert(x[0] == y[0] && x[1] == y[1] && x[2] == y[2]);
    patterns_are_told_apart(a.pattern, b.pattern);
    lists_are_told_apart(a.args, b.args);
}

/// Different terminators have different JSON forms.
#[verifier::rlimit(60)]
pub proof fn terminators_are_told_apart(a: TerminatorV, b: TerminatorV)
    requires
        ir_hash::terminator_json(a) == ir_hash::terminator_json(b),
    ensures
        a == b,
{
    reveal_strlit("Goto");
    reveal_strlit("If");
    reveal_strlit("Match");
    reveal_strlit("Return");
    reveal_strlit("Par");
    assert("Goto"@.len() == 4 && "If"@.len() == 2 && "Match"@.len() == 5);
    assert("Return"@.len() == 6 && "Par"@.len() == 3);
    let x = ir_hash::terminator_json(a)->Object_0;
    let y = ir_hash::terminator_json(b)->Object_0;
    assert(x[0] == y[0]);
    let p = x[0].1->Object_0;
    let q = y[0].1->Object_0;
    match (a, b) {
        (TerminatorV::Goto { args: s, .. }, TerminatorV::Goto { args: t, .. }) => {
            assert(p[0] == q[0] && p[1] == q[1]);
            lists_are_told_apart(s, t);
        },
        (
            TerminatorV::If { cond: e, then_args: s, else_args: m, .. },
            TerminatorV::If { cond: f, then_args: t, else_args: n, .. },
        ) => {
            assert(p[0] == q[0] && p[1] == q[1] && p[2] == q[2] && p[3] == q[3] && p[4] == q[4]);
            expressions_are_told_apart(e, f);
            lists_are_told_apart(s, t);
            lists_are_told_apart(m, n);
        },
        (
            TerminatorV::Match { value: e, arms: s, default: u, default_args: m },
            TerminatorV::Match { value: f, arms: t, default: v, default_args: n },
        ) => {
            assert(p[0] == q[0] && p[1] == q[1] && p[2] == q[2] && p[3] == q[3]);
            expressions_are_told_apart(e, f);
            let g = p[1].1->Array_0;
            let h = q[1].1->Array_0;
            assert(g.len() == h.len());
            assert forall|i: int| 0 <= i < s.len() implies s[i] == t[i] by {
                assert(g[i] == h[i]);
                arms_are_told_apart(s[i], t[i]);
            }
            assert(s =~= t);
            assert(u == v);
            lists_are_told_apart(m, n);
        },
        (TerminatorV::Return { value: e }, TerminatorV::Return { value: f }) => {
            assert(p[0] == q[0]);
            expressions_are_told_apart(e, f);
        },
        (TerminatorV::Par { branches: s, .. }, TerminatorV::Par { branches: t, .. }) => {
            assert(p[0] == q[0] && p[1] == q[1]);
            let g = p[0].1->Array_0;
            let h = q[0].1->Array_0;
            assert(g.len() == h.len());
            assert forall|i: int| 0 <= i < s.len() implies s[i] == t[i] by {
                assert(g[i] == h[i]);
            }
            assert(s =~= t);
        },
        _ => {},
    }
}

/// Whether the messages of a block stand elsewhere.
pub open spec fn block_refers(b: BlockV) -> bool {
    forall|i: int| 0 <= i < b.instructions.len() ==> refers(#[trigger] b.instructions[i])
}

proof fn blocks_are_told_apart(a: BlockV, b: BlockV)
    requires
        block_refers(a),
        block_refers(b),
        ir_hash::block_json(a) == ir_hash::block_json(b),
    ensures
        a == b,
{
    let x = ir_hash::block_json(a)->Object_0;
    let y = ir_hash::block_json(b)->Object_0;
    assert(x[0] == y[0] && x[1] == y[1] && x[2] == y[2]);
    texts_are_told_apart(a.params, b.params);
    terminators_are_told_apart(a.terminator, b.terminator);
    let s = x[1].1->Array_0;
    let t = y[1].1->Array_0;
    assert(s.len() == t.len());
    assert forall|i: int| 0 <= i < a.instructions.len() implies a.instructions[i]
        == b.instructions[i] by {
        assert(s[i] == t[i]);
        instructions_are_told_apart(a.instructions[i], b.instructions[i]);
    }
    assert(a.instructions =~= b.instructions);
}

/// Whether the messages of a program stand elsewhere: it names its prompts, and
/// holds none.
pub open spec fn all_refer(blocks: Blocks) -> bool {
    forall|i: int| 0 <= i < blocks.len() ==> block_refers((#[trigger] blocks[i]).1)
}

/// A table in the order of its labels names its prompts, if the program does.
proof fn ordered_tables_refer(blocks: Blocks)
    requires
        all_refer(blocks),
    ensures
        all_refer(ir::by_label(blocks)),
{
    let table = ir::by_label(blocks);
    ir::order_keeps_the_table(blocks);
    assert forall|i: int| 0 <= i < table.len() implies block_refers((#[trigger] table[i]).1) by {
        let id = table[i].0;
        ir::block_at_found(table, id);
        assert(ir::block_at(table, id) == ir::block_at(blocks, id));
        let k = choose|k: int|
            0 <= k < table.len() && (#[trigger] table[k]) == (id, ir::block_at(table, id)->0);
        assert(k == i) by {
            if k < i {
                assert(table[k].0 < table[i].0);
            }
            if i < k {
                assert(table[i].0 < table[k].0);
            }
        }
        ir::block_at_found(blocks, id);
        let j = choose|j: int|
            0 <= j < blocks.len() && (#[trigger] blocks[j]) == (id, ir::block_at(blocks, id)->0);
        assert(block_refers(blocks[j].1));
    }
}

/// The order in which the blocks of a program are listed does not matter:
/// programs with the same entry and the same block under every label are
/// identified by the same text and have the same hash.
pub proof fn listing_does_not_matter(p: ProgramV, q: ProgramV)
    requires
        p.entry == q.entry,
        forall|id: u32| #[trigger] ir::block_at(p.blocks, id) == ir::block_at(q.blocks, id),
    ensures
        ir_hash::program_json(p) == ir_hash::program_json(q),
        ir_hash::program_digest(p) == ir_hash::program_digest(q),
{
    ir::order_keeps_the_table(p.blocks);
    ir::order_keeps_the_table(q.blocks);
    assert forall|id: u32| #[trigger]
        ir::block_at(ir::by_label(p.blocks), id) == ir::block_at(ir::by_label(q.blocks), id) by {
        assert(ir::block_at(p.blocks, id) == ir::block_at(q.blocks, id));
    }
    ir::tables_are_equal(ir::by_label(p.blocks), ir::by_label(q.blocks));
}

/// Programs that name their prompts are told apart by the texts under their
/// hashes: where the entry changes, or the block under any label, so does the
/// text.
pub proof fn hashed_texts_tell_programs_apart(a: ProgramV, b: ProgramV)
    requires
        all_refer(a.blocks),
        all_refer(b.blocks),
        json_laws::well_written(ir_hash::program_json(a)),
        json_laws::well_written(ir_hash::program_json(b)),
        json::json_text(ir_hash::program_json(a)) == json::json_text(ir_hash::program_json(b)),
    ensures
        a.entry == b.entry,
        forall|id: u32| #[trigger] ir::block_at(a.blocks, id) == ir::block_at(b.blocks, id),
{
    json_laws::texts_tell_values_apart(ir_hash::program_json(a), ir_hash::program_json(b));
    let x = ir_hash::program_json(a)->Object_0;
    let y = ir_hash::program_json(b)->Object_0;
    assert(x[0] == y[0] && x[1] == y[1]);
    let s = x[1].1->Object_0;
    let t = y[1].1->Object_0;
    assert(s.len() == t.len());
    let g = ir::by_label(a.blocks);
    let h = ir::by_label(b.blocks);
    ordered_tables_refer(a.blocks);
    ordered_tables_refer(b.blocks);
    assert forall|i: int| 0 <= i < g.len() implies g[i] == h[i] by {
        assert(s[i] == t[i]);
        assert(s[i].0 == text::decimal(g[i].0 as nat));
        assert(t[i].0 == text::decimal(h[i].0 as nat));
        json_laws::decimals_are_apart(g[i].0 as nat, h[i].0 as nat);
        blocks_are_told_apart(g[i].1, h[i].1);
    }
    assert(g =~= h);
    ir::order_keeps_the_table(a.blocks);
    ir::order_keeps_the_table(b.blocks);
    assert forall|id: u32| #[trigger] ir::block_at(a.blocks, id) == ir::block_at(b.blocks, id) by {
        assert(ir::block_at(g, id) == ir::block_at(a.blocks, id));
        assert(ir::block_at(h, id) == ir::block_at(b.blocks, id));
    }
}

} // verus!
