//! The forms in which expressions, instructions and blocks are written down to be
//! hashed: each part stands under its name.
use crate::ir;
use crate::ir::{
    BlockV, EffectErrorMode, EvalRequestV, ExprV, InstrV, MatchArmV, PatternV, ProgramV, PromptRefV,
    TerminatorV,
};
use crate::ir_hash;
use crate::json;
use crate::json::{Fields, JsonV};
use crate::naming::mark;
use crate::text;
use vstd::prelude::*;

verus! {

/// A field is found where no field before it has its name.
pub proof fn stands_at(f: Fields, i: int)
    requires
        0 <= i < f.len(),
        forall|j: int| 0 <= j < i ==> (#[trigger] f[j]).0 != f[i].0,
    ensures
        JsonV::Object(f).field(f[i].0) == Some(f[i].1),
    decreases i,
{
    if i > 0 {
        let g = f.drop_first();
        assert forall|j: int| 0 <= j < i - 1 implies (#[trigger] g[j]).0 != g[i - 1].0 by {
            assert(g[j] == f[j + 1]);
        }
        stands_at(g, i - 1);
        assert(f[0].0 != f[i].0);
    }
}

/// An expression is written under its kind, with its parts under their names.
pub proof fn expressions_are_written_by_part(e: ExprV)
    ensures
        match e {
            ExprV::Field { base, field } => ir_hash::expr_json(e).field("Field"@) matches Some(v)
                && v.field("base"@) == Some(JsonV::Str(base))
                && v.field("field"@) == Some(JsonV::Str(field)),
            ExprV::FieldOr { base, field, default } => ir_hash::expr_json(e).field("FieldOr"@) matches Some(v)
                && v.field("base"@) == Some(JsonV::Str(base))
                && v.field("field"@) == Some(JsonV::Str(field))
                && v.field("default"@) == Some(ir_hash::expr_json(*default)),
            ExprV::StringOr { value, default } => ir_hash::expr_json(e).field("StringOr"@) matches Some(v)
                && v.field("value"@) == Some(ir_hash::expr_json(*value))
                && v.field("default"@) == Some(ir_hash::expr_json(*default)),
            ExprV::If { cond, then_value, else_value } => ir_hash::expr_json(e).field("If"@) matches Some(v)
                && v.field("cond"@) == Some(ir_hash::expr_json(*cond))
                && v.field("then_value"@) == Some(ir_hash::expr_json(*then_value))
                && v.field("else_value"@) == Some(ir_hash::expr_json(*else_value)),
            ExprV::Index { base, index } => ir_hash::expr_json(e).field("Index"@) matches Some(v)
                && v.field("base"@) == Some(JsonV::Str(base))
                && v.field("index"@) == Some(ir_hash::expr_json(*index)),
            _ => true,
        },
{
    reveal_strlit("base");
    reveal_strlit("field");
    reveal_strlit("default");
    reveal_strlit("value");
    reveal_strlit("cond");
    reveal_strlit("then_value");
    reveal_strlit("else_value");
    reveal_strlit("index");
    assert(mark("base"@) == (4nat, 'b', 'e', 's'));
    assert(mark("field"@) == (5nat, 'f', 'd', 'e'));
    assert(mark("default"@) == (7nat, 'd', 't', 'a'));
    assert(mark("value"@) == (5nat, 'v', 'e', 'l'));
    assert(mark("cond"@) == (4nat, 'c', 'd', 'n'));
    assert(mark("then_value"@) == (10nat, 't', 'e', 'v'));
    assert(mark("else_value"@) == (10nat, 'e', 'e', 'v'));
    assert(mark("index"@) == (5nat, 'i', 'x', 'd'));
    match e {
        ExprV::Field { base, field } => {
            let f = seq![
                ("base"@, JsonV::Str(base)),
                ("field"@, JsonV::Str(field)),
            ];
            stands_at(f, 0);
            stands_at(f, 1);
            let g = seq![("Field"@, JsonV::Object(f))];
            stands_at(g, 0);
        },
        ExprV::FieldOr { base, field, default } => {
            let f = seq![
                ("base"@, JsonV::Str(base)),
                ("field"@, JsonV::Str(field)),
                ("default"@, ir_hash::expr_json(*default)),
            ];
            stands_at(f, 0);
            stands_at(f, 1);
            stands_at(f, 2);
            let g = seq![("FieldOr"@, JsonV::Object(f))];
            stands_at(g, 0);
        },
        ExprV::StringOr { value, default } => {
            let f = seq![
                ("value"@, ir_hash::expr_json(*value)),
                ("default"@, ir_hash::expr_json(*default)),
            ];
            stands_at(f, 0);
            stands_at(f, 1);
            let g = seq![("StringOr"@, JsonV::Object(f))];
            stands_at(g, 0);
        },
        ExprV::If { cond, then_value, else_value } => {
            let f = seq![
                ("cond"@, ir_hash::expr_json(*cond)),
                ("then_value"@, ir_hash::expr_json(*then_value)),
                ("else_value"@, ir_hash::expr_json(*else_value)),
            ];
            stands_at(f, 0);
            stands_at(f, 1);
            stands_at(f, 2);
            let g = seq![("If"@, JsonV::Object(f))];
            stands_at(g, 0);
        },
        ExprV::Index { base, index } => {
            let f = seq![
                ("base"@, JsonV::Str(base)),
                ("index"@, ir_hash::expr_json(*index)),
            ];
            stands_at(f, 0);
            stands_at(f, 1);
            let g = seq![("Index"@, JsonV::Object(f))];
            stands_at(g, 0);
        },
        _ => {},
    }
}

/// A test is written under its kind, with its parts under their names.
pub proof fn tests_are_written_by_part(e: ExprV)
    ensures
        match e {
            ExprV::Len { base } => ir_hash::expr_json(e).field("Len"@) matches Some(v)
                && v.field("base"@) == Some(JsonV::Str(base)),
            ExprV::IsEmpty { base } => ir_hash::expr_json(e).field("IsEmpty"@) matches Some(v)
                && v.field("base"@) == Some(JsonV::Str(base)),
            ExprV::Eq { left, right } => ir_hash::expr_json(e).field("Eq"@) matches Some(v)
                && v.field("left"@) == Some(ir_hash::expr_json(*left))
                && v.field("right"@) == Some(ir_hash::expr_json(*right)),
            ExprV::Lt { left, right } => ir_hash::expr_json(e).field("Lt"@) matches Some(v)
                && v.field("left"@) == Some(ir_hash::expr_json(*left))
                && v.field("right"@) == Some(ir_hash::expr_json(*right)),
            ExprV::Or { left, right } => ir_hash::expr_json(e).field("Or"@) matches Some(v)
                && v.field("left"@) == Some(ir_hash::expr_json(*left))
                && v.field("right"@) == Some(ir_hash::expr_json(*right)),
            ExprV::And { left, right } => ir_hash::expr_json(e).field("And"@) matches Some(v)
                && v.field("left"@) == Some(ir_hash::expr_json(*left))
                && v.field("right"@) == Some(ir_hash::expr_json(*right)),
            ExprV::HasPendingToolCalls { base } => ir_hash::expr_json(e).field("HasPendingToolCalls"@) matches Some(v)
                && v.field("base"@) == Some(JsonV::Str(base)),
            _ => true,
        },
{
    reveal_strlit("base");
    reveal_strlit("left");
    reveal_strlit("right");
    assert(mark("base"@) == (4nat, 'b', 'e', 's'));
    assert(mark("left"@) == (4nat, 'l', 't', 'f'));
    assert(mark("right"@) == (5nat, 'r', 't', 'g'));
    match e {
        ExprV::Len { base } => {
            let f = seq![
                ("base"@, JsonV::Str(base)),
            ];
            stands_at(f, 0);
            let g = seq![("Len"@, JsonV::Object(f))];
            stands_at(g, 0);
        },
        ExprV::IsEmpty { base } => {
            let f = seq![
                ("base"@, JsonV::Str(base)),
            ];
            stands_at(f, 0);
            let g = seq![("IsEmpty"@, JsonV::Object(f))];
            stands_at(g, 0);
        },
        ExprV::Eq { left, right } => {
            let f = seq![
                ("left"@, ir_hash::expr_json(*left)),
                ("right"@, ir_hash::expr_json(*right)),
            ];
            stands_at(f, 0);
            stands_at(f, 1);
            let g = seq![("Eq"@, JsonV::Object(f))];
            stands_at(g, 0);
        },
        ExprV::Lt { left, right } => {
            let f = seq![
                ("left"@, ir_hash::expr_json(*left)),
                ("right"@, ir_hash::expr_json(*right)),
            ];
            stands_at(f, 0);
            stands_at(f, 1);
            let g = seq![("Lt"@, JsonV::Object(f))];
            stands_at(g, 0);
        },
        ExprV::Or { left, right } => {
            let f = seq![
                ("left"@, ir_hash::expr_json(*left)),
                ("right"@, ir_hash::expr_json(*right)),
            ];
            stands_at(f, 0);
            stands_at(f, 1);
            let g = seq![("Or"@, JsonV::Object(f))];
            stands_at(g, 0);
        },
        ExprV::And { left, right } => {
            let f = seq![
                ("left"@, ir_hash::expr_json(*left)),
                ("right"@, ir_hash::expr_json(*right)),
            ];
            stands_at(f, 0);
            stands_at(f, 1);
            let g = seq![("And"@, JsonV::Object(f))];
            stands_at(g, 0);
        },
        ExprV::HasPendingToolCalls { base } => {
            let f = seq![
                ("base"@, JsonV::Str(base)),
            ];
            stands_at(f, 0);
            let g = seq![("HasPendingToolCalls"@, JsonV::Object(f))];
            stands_at(g, 0);
        },
        _ => {},
    }
}

/// A computed value is written under its kind, with its parts under their names.
pub proof fn values_are_written_by_part(e: ExprV)
    ensures
        match e {
            ExprV::Add { left, right } => ir_hash::expr_json(e).field("Add"@) matches Some(v)
                && v.field("left"@) == Some(ir_hash::expr_json(*left))
                && v.field("right"@) == Some(ir_hash::expr_json(*right)),
            ExprV::Sub { left, right } => ir_hash::expr_json(e).field("Sub"@) matches Some(v)
                && v.field("left"@) == Some(ir_hash::expr_json(*left))
                && v.field("right"@) == Some(ir_hash::expr_json(*right)),
            ExprV::Push { base, value } => ir_hash::expr_json(e).field("Push"@) matches Some(v)
                && v.field("base"@) == Some(JsonV::Str(base))
                && v.field("value"@) == Some(ir_hash::expr_json(*value)),
            ExprV::JsonParse { value } => ir_hash::expr_json(e).field("JsonParse"@) matches Some(v)
                && v.field("value"@) == Some(ir_hash::expr_json(*value)),
            ExprV::JsonParseOr { value, default } => ir_hash::expr_json(e).field("JsonParseOr"@) matches Some(v)
                && v.field("value"@) == Some(ir_hash::expr_json(*value))
                && v.field("default"@) == Some(ir_hash::expr_json(*default)),
            ExprV::ToString { value } => ir_hash::expr_json(e).field("ToString"@) matches Some(v)
                && v.field("value"@) == Some(ir_hash::expr_json(*value)),
            ExprV::Concat { left, right } => ir_hash::expr_json(e).field("Concat"@) matches Some(v)
                && v.field("left"@) == Some(ir_hash::expr_json(*left))
                && v.field("right"@) == Some(ir_hash::expr_json(*right)),
            ExprV::SelectToolResults { history, ids } => ir_hash::expr_json(e).field("SelectToolResults"@) matches Some(v)
                && v.field("history"@) == Some(JsonV::Str(history))
                && v.field("ids"@) == Some(ir_hash::expr_json(*ids)),
            _ => true,
        },
{
    reveal_strlit("left");
    reveal_strlit("right");
    reveal_strlit("base");
    reveal_strlit("value");
    reveal_strlit("default");
    reveal_strlit("history");
    reveal_strlit("ids");
    assert(mark("left"@) == (4nat, 'l', 't', 'f'));
    assert(mark("right"@) == (5nat, 'r', 't', 'g'));
    assert(mark("base"@) == (4nat, 'b', 'e', 's'));
    assert(mark("value"@) == (5nat, 'v', 'e', 'l'));
    assert(mark("default"@) == (7nat, 'd', 't', 'a'));
    assert(mark("history"@) == (7nat, 'h', 'y', 't'));
    assert(mark("ids"@) == (3nat, 'i', 's', 'd'));
    match e {
        ExprV::Add { left, right } => {
            let f = seq![
                ("left"@, ir_hash::expr_json(*left)),
                ("right"@, ir_hash::expr_json(*right)),
            ];
            stands_at(f, 0);
            stands_at(f, 1);
            let g = seq![("Add"@, JsonV::Object(f))];
            stands_at(g, 0);
        },
        ExprV::Sub { left, right } => {
            let f = seq![
                ("left"@, ir_hash::expr_json(*left)),
                ("right"@, ir_hash::expr_json(*right)),
            ];
            stands_at(f, 0);
            stands_at(f, 1);
            let g = seq![("Sub"@, JsonV::Object(f))];
            stands_at(g, 0);
        },
        ExprV::Push { base, value } => {
            let f = seq![
                ("base"@, JsonV::Str(base)),
                ("value"@, ir_hash::expr_json(*value)),
            ];
            stands_at(f, 0);
            stands_at(f, 1);
            let g = seq![("Push"@, JsonV::Object(f))];
            stands_at(g, 0);
        },
        ExprV::JsonParse { value } => {
            let f = seq![
                ("value"@, ir_hash::expr_json(*value)),
            ];
            stands_at(f, 0);
            let g = seq![("JsonParse"@, JsonV::Object(f))];
            stands_at(g, 0);
        },
        ExprV::JsonParseOr { value, default } => {
            let f = seq![
                ("value"@, ir_hash::expr_json(*value)),
                ("default"@, ir_hash::expr_json(*default)),
            ];
            stands_at(f, 0);
            stands_at(f, 1);
            let g = seq![("JsonParseOr"@, JsonV::Object(f))];
            stands_at(g, 0);
        },
        ExprV::ToString { value } => {
            let f = seq![
                ("value"@, ir_hash::expr_json(*value)),
            ];
            stands_at(f, 0);
            let g = seq![("ToString"@, JsonV::Object(f))];
            stands_at(g, 0);
        },
        ExprV::Concat { left, right } => {
            let f = seq![
                ("left"@, ir_hash::expr_json(*left)),
                ("right"@, ir_hash::expr_json(*right)),
            ];
            stands_at(f, 0);
            stands_at(f, 1);
            let g = seq![("Concat"@, JsonV::Object(f))];
            stands_at(g, 0);
        },
        ExprV::SelectToolResults { history, ids } => {
            let f = seq![
                ("history"@, JsonV::Str(history)),
                ("ids"@, ir_hash::expr_json(*ids)),
            ];
            stands_at(f, 0);
            stands_at(f, 1);
            let g = seq![("SelectToolResults"@, JsonV::Object(f))];
            stands_at(g, 0);
        },
        _ => {},
    }
}

/// An instruction is written under its kind, with its parts under their names.
pub proof fn instructions_are_written_by_part(i: InstrV)
    ensures
        match i {
            InstrV::Let { out, expr } => ir_hash::instr_json(i).field("Let"@) matches Some(v)
                && v.field("out"@) == Some(JsonV::Str(out))
                && v.field("expr"@) == Some(ir_hash::expr_json(expr)),
            InstrV::Infer { out, model, prompt, on_error, tools } => ir_hash::instr_json(i).field("Infer"@) matches Some(v)
                && v.field("out"@) == Some(JsonV::Str(out))
                && v.field("model"@) == Some(ir_hash::expr_json(model))
                && v.field("prompt"@) == Some(ir_hash::prompt_json(prompt))
                && v.field("policy"@) == Some(ir_hash::infer_policy_json(on_error, tools)),
            InstrV::Eval { out, request, require_approval } => ir_hash::instr_json(i).field("Eval"@) matches Some(v)
                && v.field("out"@) == Some(JsonV::Str(out))
                && v.field("request"@) == Some(ir_hash::request_json(request))
                && v.field("policy"@) == Some(ir_hash::eval_policy_json(require_approval)),
            InstrV::Emit { event } => ir_hash::instr_json(i).field("Emit"@) matches Some(v)
                && v.field("event"@) == Some(ir_hash::expr_json(event)),
            InstrV::Retrieve { out, query, kind, max_bytes, on_error } => ir_hash::instr_json(i).field("Retrieve"@) matches Some(v)
                && v.field("out"@) == Some(JsonV::Str(out))
                && v.field("query"@) == Some(ir_hash::expr_json(query))
                && v.field("kind"@) == Some(ir_hash::kind_json(kind))
                && v.field("max_bytes"@) == Some(ir_hash::size_json(max_bytes))
                && v.field("policy"@) == Some(ir_hash::policy_json(on_error)),
            InstrV::Store { out, sink, op, id, item, on_error } => ir_hash::instr_json(i).field("Store"@) matches Some(v)
                && v.field("out"@) == Some(JsonV::Str(out))
                && v.field("sink"@) == Some(ir_hash::expr_json(sink))
                && v.field("op"@) == Some(JsonV::Str(op.text()))
                && v.field("id"@) == Some(ir_hash::opt_expr_json(id))
                && v.field("item"@) == Some(ir_hash::expr_json(item))
                && v.field("policy"@) == Some(ir_hash::policy_json(on_error)),
            InstrV::Tool { out, name, arguments, on_error } => ir_hash::instr_json(i).field("Tool"@) matches Some(v)
                && v.field("out"@) == Some(JsonV::Str(out))
                && v.field("name"@) == Some(JsonV::Str(name))
                && v.field("arguments"@) == Some(ir_hash::expr_json(arguments))
                && v.field("policy"@) == Some(ir_hash::policy_json(on_error)),
            _ => true,
        },
{
    reveal_strlit("out");
    reveal_strlit("expr");
    reveal_strlit("model");
    reveal_strlit("prompt");
    reveal_strlit("policy");
    reveal_strlit("request");
    reveal_strlit("event");
    reveal_strlit("query");
    reveal_strlit("kind");
    reveal_strlit("max_bytes");
    reveal_strlit("sink");
    reveal_strlit("op");
    reveal_strlit("id");
    reveal_strlit("item");
    reveal_strlit("name");
    reveal_strlit("arguments");
    assert(mark("out"@) == (3nat, 'o', 't', 'u'));
    assert(mark("expr"@) == (4nat, 'e', 'r', 'p'));
    assert(mark("model"@) == (5nat, 'm', 'l', 'd'));
    assert(mark("prompt"@) == (6nat, 'p', 't', 'm'));
    assert(mark("policy"@) == (6nat, 'p', 'y', 'i'));
    assert(mark("request"@) == (7nat, 'r', 't', 'u'));
    assert(mark("event"@) == (5nat, 'e', 't', 'e'));
    assert(mark("query"@) == (5nat, 'q', 'y', 'e'));
    assert(mark("kind"@) == (4nat, 'k', 'd', 'n'));
    assert(mark("max_bytes"@) == (9nat, 'm', 's', 'b'));
    assert(mark("sink"@) == (4nat, 's', 'k', 'n'));
    assert(mark("op"@) == (2nat, 'o', 'p', 'p'));
    assert(mark("id"@) == (2nat, 'i', 'd', 'd'));
    assert(mark("item"@) == (4nat, 'i', 'm', 'e'));
    assert(mark("name"@) == (4nat, 'n', 'e', 'm'));
    assert(mark("arguments"@) == (9nat, 'a', 's', 'm'));
    match i {
        InstrV::Let { out, expr } => {
            let f = seq![
                ("out"@, JsonV::Str(out)),
                ("expr"@, ir_hash::expr_json(expr)),
            ];
            stands_at(f, 0);
            stands_at(f, 1);
            let g = seq![("Let"@, JsonV::Object(f))];
            stands_at(g, 0);
        },
        InstrV::Infer { out, model, prompt, on_error, tools } => {
            let f = seq![
                ("out"@, JsonV::Str(out)),
                ("model"@, ir_hash::expr_json(model)),
                ("prompt"@, ir_hash::prompt_json(prompt)),
                ("policy"@, ir_hash::infer_policy_json(on_error, tools)),
            ];
            stands_at(f, 0);
            stands_at(f, 1);
            stands_at(f, 2);
            stands_at(f, 3);
            let g = seq![("Infer"@, JsonV::Object(f))];
            stands_at(g, 0);
        },
        InstrV::Eval { out, request, require_approval } => {
            let f = seq![
                ("out"@, JsonV::Str(out)),
                ("request"@, ir_hash::request_json(request)),
                ("policy"@, ir_hash::eval_policy_json(require_approval)),
            ];
            stands_at(f, 0);
            stands_at(f, 1);
            stands_at(f, 2);
            let g = seq![("Eval"@, JsonV::Object(f))];
            stands_at(g, 0);
        },
        InstrV::Emit { event } => {
            let f = seq![
                ("event"@, ir_hash::expr_json(event)),
            ];
            stands_at(f, 0);
            let g = seq![("Emit"@, JsonV::Object(f))];
            stands_at(g, 0);
        },
        InstrV::Retrieve { out, query, kind, max_bytes, on_error } => {
            let f = seq![
                ("out"@, JsonV::Str(out)),
                ("query"@, ir_hash::expr_json(query)),
                ("kind"@, ir_hash::kind_json(kind)),
                ("max_bytes"@, ir_hash::size_json(max_bytes)),
                ("policy"@, ir_hash::policy_json(on_error)),
            ];
            stands_at(f, 0);
            stands_at(f, 1);
            stands_at(f, 2);
            stands_at(f, 3);
            stands_at(f, 4);
            let g = seq![("Retrieve"@, JsonV::Object(f))];
            stands_at(g, 0);
        },
        InstrV::Store { out, sink, op, id, item, on_error } => {
            let f = seq![
                ("out"@, JsonV::Str(out)),
                ("sink"@, ir_hash::expr_json(sink)),
                ("op"@, JsonV::Str(op.text())),
                ("id"@, ir_hash::opt_expr_json(id)),
                ("item"@, ir_hash::expr_json(item)),
                ("policy"@, ir_hash::policy_json(on_error)),
            ];
            stands_at(f, 0);
            stands_at(f, 1);
            stands_at(f, 2);
            stands_at(f, 3);
            stands_at(f, 4);
            stands_at(f, 5);
            let g = seq![("Store"@, JsonV::Object(f))];
            stands_at(g, 0);
        },
        InstrV::Tool { out, name, arguments, on_error } => {
            let f = seq![
                ("out"@, JsonV::Str(out)),
                ("name"@, JsonV::Str(name)),
                ("arguments"@, ir_hash::expr_json(arguments)),
                ("policy"@, ir_hash::policy_json(on_error)),
            ];
            stands_at(f, 0);
            stands_at(f, 1);
            stands_at(f, 2);
            stands_at(f, 3);
            let g = seq![("Tool"@, JsonV::Object(f))];
            stands_at(g, 0);
        },
        _ => {},
    }
}

/// A jump, a branch and a return are written under their kinds, with their parts
/// under their names.
pub proof fn jumps_are_written_by_part(t: TerminatorV)
    ensures
        match t {
            TerminatorV::Goto { block, args } => ir_hash::terminator_json(t).field("Goto"@) matches Some(v)
                && v.field("block"@) == Some(JsonV::Int(block as int))
                && v.field("args"@) == Some(JsonV::Array(ir_hash::exprs_json(args))),
            TerminatorV::If { cond, then_block, then_args, else_block, else_args } => ir_hash::terminator_json(t).field("If"@) matches Some(v)
                && v.field("cond"@) == Some(ir_hash::expr_json(cond))
                && v.field("then_block"@) == Some(JsonV::Int(then_block as int))
                && v.field("then_args"@) == Some(JsonV::Array(ir_hash::exprs_json(then_args)))
                && v.field("else_block"@) == Some(JsonV::Int(else_block as int))
                && v.field("else_args"@) == Some(JsonV::Array(ir_hash::exprs_json(else_args))),
            TerminatorV::Return { value } => ir_hash::terminator_json(t).field("Return"@) matches Some(v)
                && v.field("value"@) == Some(ir_hash::expr_json(value)),
            _ => true,
        },
{
    reveal_strlit("block");
    reveal_strlit("args");
    reveal_strlit("cond");
    reveal_strlit("then_block");
    reveal_strlit("then_args");
    reveal_strlit("else_block");
    reveal_strlit("else_args");
    reveal_strlit("value");
    assert(mark("block"@) == (5nat, 'b', 'k', 'o'));
    assert(mark("args"@) == (4nat, 'a', 's', 'g'));
    assert(mark("cond"@) == (4nat, 'c', 'd', 'n'));
    assert(mark("then_block"@) == (10nat, 't', 'k', 'b'));
    assert(mark("then_args"@) == (9nat, 't', 's', '_'));
    assert(mark("else_block"@) == (10nat, 'e', 'k', 'b'));
    assert(mark("else_args"@) == (9nat, 'e', 's', '_'));
    assert(mark("value"@) == (5nat, 'v', 'e', 'l'));
    match t {
        TerminatorV::Goto { block, args } => {
            let f = seq![
                ("block"@, JsonV::Int(block as int)),
                ("args"@, JsonV::Array(ir_hash::exprs_json(args))),
            ];
            stands_at(f, 0);
            stands_at(f, 1);
            let g = seq![("Goto"@, JsonV::Object(f))];
            stands_at(g, 0);
        },
        TerminatorV::If { cond, then_block, then_args, else_block, else_args } => {
            let f = seq![
                ("cond"@, ir_hash::expr_json(cond)),
                ("then_block"@, JsonV::Int(then_block as int)),
                ("then_args"@, JsonV::Array(ir_hash::exprs_json(then_args))),
                ("else_block"@, JsonV::Int(else_block as int)),
                ("else_args"@, JsonV::Array(ir_hash::exprs_json(else_args))),
            ];
            stands_at(f, 0);
            stands_at(f, 1);
            stands_at(f, 2);
            stands_at(f, 3);
            stands_at(f, 4);
            let g = seq![("If"@, JsonV::Object(f))];
            stands_at(g, 0);
        },
        TerminatorV::Return { value } => {
            let f = seq![
                ("value"@, ir_hash::expr_json(value)),
            ];
            stands_at(f, 0);
            let g = seq![("Return"@, JsonV::Object(f))];
            stands_at(g, 0);
        },
        _ => {},
    }
}

/// A choice is written with its value, its arms in their order and where it goes
/// otherwise; a fork with its branches in their order and where they join.
pub proof fn choices_are_written_by_part(t: TerminatorV)
    ensures
        match t {
            TerminatorV::Match { value, arms, default, default_args } => {
                &&& ir_hash::terminator_json(t).field("Match"@) matches Some(v)
                &&& v.field("value"@) == Some(ir_hash::expr_json(value))
                &&& v.field("arms"@) matches Some(JsonV::Array(l)) && l.len() == arms.len()
                    && forall|i: int|
                    0 <= i < arms.len() ==> {
                        &&& (#[trigger] l[i]).field("pattern"@) == Some(
                            ir_hash::pattern_json(arms[i].pattern),
                        )
                        &&& l[i].field("block"@) == Some(JsonV::Int(arms[i].block as int))
                        &&& l[i].field("args"@) == Some(
                            JsonV::Array(ir_hash::exprs_json(arms[i].args)),
                        )
                    }
                &&& v.field("default"@) == Some(
                    match default {
                        Some(d) => JsonV::Int(d as int),
                        None => JsonV::Null,
                    },
                )
                &&& v.field("default_args"@) == Some(JsonV::Array(ir_hash::exprs_json(default_args)))
            },
            TerminatorV::Par { branches, join } => {
                &&& ir_hash::terminator_json(t).field("Par"@) matches Some(v)
                &&& v.field("branches"@) matches Some(JsonV::Array(l)) && l.len() == branches.len()
                    && forall|i: int|
                    0 <= i < branches.len() ==> #[trigger] l[i] == JsonV::Int(branches[i] as int)
                &&& v.field("join"@) == Some(JsonV::Int(join as int))
            },
            _ => true,
        },
{
    reveal_strlit("value");
    reveal_strlit("arms");
    reveal_strlit("default");
    reveal_strlit("default_args");
    reveal_strlit("branches");
    reveal_strlit("join");
    assert(mark("value"@) == (5nat, 'v', 'e', 'l'));
    assert(mark("arms"@) == (4nat, 'a', 's', 'm'));
    assert(mark("default"@) == (7nat, 'd', 't', 'a'));
    assert(mark("default_args"@) == (12nat, 'd', 's', 't'));
    assert(mark("branches"@) == (8nat, 'b', 's', 'c'));
    assert(mark("join"@) == (4nat, 'j', 'n', 'i'));
    match t {
        TerminatorV::Match { value, arms, default, default_args } => {
            let f = seq![
                ("value"@, ir_hash::expr_json(value)),
                ("arms"@, JsonV::Array(Seq::new(arms.len(), |i: int| ir_hash::arm_json(arms[i])))),
                ("default"@, ir_hash::opt_label_json(default)),
                ("default_args"@, JsonV::Array(ir_hash::exprs_json(default_args))),
            ];
            stands_at(f, 0);
            stands_at(f, 1);
            stands_at(f, 2);
            stands_at(f, 3);
            let g = seq![("Match"@, JsonV::Object(f))];
            stands_at(g, 0);
            let l = f[1].1->Array_0;
            assert forall|i: int| 0 <= i < arms.len() implies {
                &&& (#[trigger] l[i]).field("pattern"@) == Some(
                    ir_hash::pattern_json(arms[i].pattern),
                )
                &&& l[i].field("block"@) == Some(JsonV::Int(arms[i].block as int))
                &&& l[i].field("args"@) == Some(JsonV::Array(ir_hash::exprs_json(arms[i].args)))
            } by {
                arms_are_written_by_part(arms[i]);
            }
        },
        TerminatorV::Par { branches, join } => {
            let f = seq![
                (
                    "branches"@,
                    JsonV::Array(Seq::new(branches.len(), |i: int| JsonV::Int(branches[i] as int))),
                ),
                ("join"@, JsonV::Int(join as int)),
            ];
            stands_at(f, 0);
            stands_at(f, 1);
            let g = seq![("Par"@, JsonV::Object(f))];
            stands_at(g, 0);
        },
        _ => {},
    }
}

/// An arm is written with its pattern, its block and its arguments.
pub proof fn arms_are_written_by_part(a: MatchArmV)
    ensures
        ir_hash::arm_json(a).field("pattern"@) == Some(ir_hash::pattern_json(a.pattern)),
        ir_hash::arm_json(a).field("block"@) == Some(JsonV::Int(a.block as int)),
        ir_hash::arm_json(a).field("args"@) == Some(JsonV::Array(ir_hash::exprs_json(a.args))),
{
    reveal_strlit("pattern");
    reveal_strlit("block");
    reveal_strlit("args");
    assert(mark("pattern"@) == (7nat, 'p', 'n', 't'));
    assert(mark("block"@) == (5nat, 'b', 'k', 'o'));
    assert(mark("args"@) == (4nat, 'a', 's', 'g'));
    let f = ir_hash::arm_json(a)->Object_0;
    stands_at(f, 0);
    stands_at(f, 1);
    stands_at(f, 2);
}

/// Expressions in a list are written in their order, and named ones under their
/// names.
pub proof fn lists_are_written_in_order(items: Seq<ExprV>, named: Seq<(Seq<char>, ExprV)>, i: int)
    ensures
        ir_hash::exprs_json(items).len() == items.len(),
        0 <= i < items.len() ==> ir_hash::exprs_json(items)[i] == ir_hash::expr_json(items[i]),
        ir_hash::named_json(named).len() == named.len(),
        0 <= i < named.len() ==> ir_hash::named_json(named)[i] == (
            named[i].0,
            ir_hash::expr_json(named[i].1),
        ),
        ir_hash::expr_json(ExprV::Array(items)).field("Array"@) == Some(
            JsonV::Array(ir_hash::exprs_json(items)),
        ),
        ir_hash::expr_json(ExprV::Object(named)).field("Object"@) == Some(
            JsonV::Object(ir_hash::named_json(named)),
        ),
    decreases items.len() + named.len(),
{
    stands_at(seq![("Array"@, JsonV::Array(ir_hash::exprs_json(items)))], 0);
    stands_at(seq![("Object"@, JsonV::Object(ir_hash::named_json(named)))], 0);
    if items.len() > 0 {
        lists_are_written_in_order(items.drop_last(), named, i);
    }
    if named.len() > 0 {
        lists_are_written_in_order(items, named.drop_last(), i);
    }
}

/// Values and variables are written under their kinds.
pub proof fn leaves_are_written_by_kind(x: JsonV, v: Seq<char>)
    ensures
        ir_hash::expr_json(ExprV::Value(x)).field("Value"@) == Some(x),
        ir_hash::expr_json(ExprV::Var(v)).field("Var"@) == Some(JsonV::Str(v)),
        ir_hash::prompt_json(PromptRefV::Var(v)).field("Var"@) == Some(JsonV::Str(v)),
        ir_hash::prompt_json(PromptRefV::PromptIr(x)).field("PromptIr"@) == Some(x),
        ir_hash::prompt_json(PromptRefV::PromptIrVar(v)).field("PromptIrVar"@) == Some(JsonV::Str(v)),
        ir_hash::mode_json(EffectErrorMode::Abort) == JsonV::Str("abort"@),
        ir_hash::mode_json(EffectErrorMode::Bind) == JsonV::Str("bind"@),
{
    stands_at(seq![("Value"@, x)], 0);
    stands_at(seq![("Var"@, JsonV::Str(v))], 0);
    stands_at(seq![("PromptIr"@, x)], 0);
    stands_at(seq![("PromptIrVar"@, JsonV::Str(v))], 0);
}

/// A request to evaluate is written as a command line or as a list of words.
pub proof fn requests_are_written_by_kind(command: ExprV, argv: Seq<ExprV>)
    ensures
        ir_hash::request_json(EvalRequestV::Shell { command }).field("Shell"@) matches Some(v)
            && v.field("command"@) == Some(ir_hash::expr_json(command)),
        ir_hash::request_json(EvalRequestV::Argv { argv }).field("Argv"@) matches Some(v)
            && v.field("argv"@) == Some(JsonV::Array(ir_hash::exprs_json(argv))),
{
    let f = seq![("command"@, ir_hash::expr_json(command))];
    stands_at(f, 0);
    stands_at(seq![("Shell"@, JsonV::Object(f))], 0);
    let g = seq![("argv"@, JsonV::Array(ir_hash::exprs_json(argv)))];
    stands_at(g, 0);
    stands_at(seq![("Argv"@, JsonV::Object(g))], 0);
}

/// A policy names what becomes of a failure.  That of an inference names the tools
/// only where they are narrowed, and that of an evaluation its gate only where it
/// has one.
pub proof fn policies_are_written_by_part(m: EffectErrorMode, tools: Seq<Seq<char>>)
    ensures
        ir_hash::policy_json(m).field("on_error"@) == Some(ir_hash::mode_json(m)),
        ir_hash::infer_policy_json(m, None).field("on_error"@) == Some(ir_hash::mode_json(m)),
        ir_hash::infer_policy_json(m, None).field("tools"@) is None,
        ir_hash::infer_policy_json(m, Some(tools)).field("on_error"@) == Some(ir_hash::mode_json(m)),
        ir_hash::infer_policy_json(m, Some(tools)).field("tools"@) matches Some(JsonV::Array(l))
            && l.len() == tools.len() && forall|i: int|
            0 <= i < tools.len() ==> #[trigger] l[i] == JsonV::Str(tools[i]),
        ir_hash::eval_policy_json(true).field("require_approval"@) == Some(JsonV::Bool(true)),
        ir_hash::eval_policy_json(false).field("require_approval"@) is None,
{
    reveal_strlit("on_error");
    reveal_strlit("tools");
    assert(mark("on_error"@) == (8nat, 'o', 'r', 'r'));
    assert(mark("tools"@) == (5nat, 't', 's', 'o'));
    let f = seq![("on_error"@, ir_hash::mode_json(m))];
    stands_at(f, 0);
    assert(f.drop_first() =~= Seq::empty());
    assert(json::lookup(f.drop_first(), "tools"@) is None);
    let g = seq![("on_error"@, ir_hash::mode_json(m)), ("tools"@, ir_hash::texts_json(tools))];
    stands_at(g, 0);
    stands_at(g, 1);
    stands_at(seq![("require_approval"@, JsonV::Bool(true))], 0);
}

/// A pattern is written as what it accepts.
pub proof fn patterns_are_written_by_kind(
    b: bool,
    s: Seq<char>,
    n: JsonV,
    pattern: PatternV,
)
    ensures
        ir_hash::pattern_json(PatternV::Null) == JsonV::Str("Null"@),
        ir_hash::pattern_json(PatternV::Any) == JsonV::Str("Any"@),
        ir_hash::pattern_json(PatternV::Bool(b)).field("Bool"@) == Some(JsonV::Bool(b)),
        ir_hash::pattern_json(PatternV::Text(s)).field("String"@) == Some(JsonV::Str(s)),
        ir_hash::pattern_json(PatternV::Number(n)).field("Number"@) == Some(n),
        ir_hash::pattern_json(PatternV::ObjectField { field: s, pattern: Box::new(pattern) }).field(
            "ObjectField"@,
        ) matches Some(v) && v.field("field"@) == Some(JsonV::Str(s)) && v.field("pattern"@)
            == Some(ir_hash::pattern_json(pattern)),
{
    reveal_strlit("field");
    reveal_strlit("pattern");
    assert(mark("field"@) == (5nat, 'f', 'd', 'e'));
    assert(mark("pattern"@) == (7nat, 'p', 'n', 't'));
    stands_at(seq![("Bool"@, JsonV::Bool(b))], 0);
    stands_at(seq![("String"@, JsonV::Str(s))], 0);
    stands_at(seq![("Number"@, n)], 0);
    let f = seq![("field"@, JsonV::Str(s)), ("pattern"@, ir_hash::pattern_json(pattern))];
    stands_at(f, 0);
    stands_at(f, 1);
    stands_at(seq![("ObjectField"@, JsonV::Object(f))], 0);
}

/// A block is written with its parameters and its instructions in their order and
/// with what ends it.
pub proof fn blocks_are_written_by_part(b: BlockV)
    ensures
        ir_hash::block_json(b).field("params"@) matches Some(JsonV::Array(l)) && l.len()
            == b.params.len() && forall|i: int|
            0 <= i < l.len() ==> #[trigger] l[i] == JsonV::Str(b.params[i]),
        ir_hash::block_json(b).field("instructions"@) matches Some(JsonV::Array(l)) && l.len()
            == b.instructions.len() && forall|i: int|
            0 <= i < l.len() ==> #[trigger] l[i] == ir_hash::instr_json(b.instructions[i]),
        ir_hash::block_json(b).field("terminator"@) == Some(ir_hash::terminator_json(b.terminator)),
{
    reveal_strlit("params");
    reveal_strlit("instructions");
    reveal_strlit("terminator");
    assert(mark("params"@) == (6nat, 'p', 's', 'a'));
    assert(mark("instructions"@) == (12nat, 'i', 's', 'c'));
    assert(mark("terminator"@) == (10nat, 't', 'r', 'n'));
    let f = ir_hash::block_json(b)->Object_0;
    stands_at(f, 0);
    stands_at(f, 1);
    stands_at(f, 2);
}

/// A program is written with its entry and with each of its blocks under its label.
pub proof fn programs_are_written_by_part(p: ProgramV)
    ensures
        ir_hash::program_json(p).field("entry"@) == Some(JsonV::Int(p.entry as int)),
        ir_hash::program_json(p).field("blocks"@) matches Some(JsonV::Object(f)) && f.len()
            == ir::by_label(p.blocks).len() && forall|i: int|
            0 <= i < f.len() ==> #[trigger] f[i] == (
                text::decimal(ir::by_label(p.blocks)[i].0 as nat),
                ir_hash::block_json(ir::by_label(p.blocks)[i].1),
            ),
{
    reveal_strlit("entry");
    reveal_strlit("blocks");
    assert(mark("entry"@) == (5nat, 'e', 'y', 't'));
    assert(mark("blocks"@) == (6nat, 'b', 's', 'c'));
    let f = ir_hash::program_json(p)->Object_0;
    stands_at(f, 0);
    stands_at(f, 1);
}

} // verus!
