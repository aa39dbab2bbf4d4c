//! The agent loop as a program: turns of inference, the dispatch of the tools
//! that the model calls, and the repair of final outputs.
use crate::approval::ApprovalRequest;
use crate::codec;
use crate::codec::encode_messages;
use crate::interpreter::IrCheckpoint;
use crate::ir;
use crate::ir::{
    Block, BlockId, BlockV, EffectErrorMode, EvalRequest, EvalRequestV, Expr, ExprV, Instr, InstrV,
    Program, ProgramV, PromptRef, PromptRefV, SourceKind, StoreOp, Terminator, TerminatorV, Var,
};
use crate::ir_hash;
use crate::ir_hash::{encode_texts, record2, record3};
use crate::json;
use crate::json::{get_field, Json, JsonV};
use crate::machine::{Machine, MachineV};
use crate::op;
use crate::op::{join_texts, push_string, Model, Prompt, CONTINUE_NUDGE};
use crate::output_contract;
use crate::output_contract::{OutputContract, OutputContractFailure, MAX_TRACE_ERRORS};
use crate::replay;
use crate::replay::IrReplayTrace;
use crate::table;
use crate::table::copy_counts;
use crate::text;
use crate::text::{preview, same_text};
use crate::trace::EventV;
use vstd::prelude::*;

verus! {

/// How much a recall brings back at most.
pub const RECALL_MAX_BYTES: usize = 16384;

/// What shapes the program of an agent loop.
#[derive(Debug)]
pub struct LoopShape {
    pub model: String,
    /// Whether the model can remember and recall.
    pub memory_tools: bool,
    /// The native tools, in the order in which they are tried.
    pub native_tools: Vec<String>,
    /// Whether each command waits for approval.
    pub shell_requires_approval: bool,
}

/// The model of a loop shape.
pub struct LoopShapeV {
    pub model: Seq<char>,
    pub memory_tools: bool,
    pub native_tools: Seq<Seq<char>>,
    pub shell_requires_approval: bool,
}

impl LoopShape {
    pub open spec fn view(&self) -> LoopShapeV {
        LoopShapeV {
            model: self.model@,
            memory_tools: self.memory_tools,
            native_tools: op::texts(self.native_tools@),
            shell_requires_approval: self.shell_requires_approval,
        }
    }
}

/// Whether every native tool has its two labels.
pub open spec fn fits(c: LoopShapeV) -> bool {
    24 + 2 * c.native_tools.len() <= u32::MAX
}

fn name(s: &str) -> (r: Var)
    ensures
        r.0@ == s@,
{
    Var(s.to_owned())
}

pub open spec fn v_var(x: Seq<char>) -> ExprV {
    ExprV::Var(x)
}

fn e_var(x: &str) -> (r: Expr)
    ensures
        r@ == v_var(x@),
{
    Expr::Var(name(x))
}

pub open spec fn v_text(s: Seq<char>) -> ExprV {
    ExprV::Value(JsonV::Str(s))
}

fn e_text(s: &str) -> (r: Expr)
    ensures
        r@ == v_text(s@),
{
    Expr::Value(Json::text(s))
}

pub open spec fn v_int(n: int) -> ExprV {
    ExprV::Value(JsonV::Int(n))
}

fn e_int(n: i128) -> (r: Expr)
    ensures
        r@ == v_int(n as int),
{
    Expr::Value(Json::Int(n))
}

pub open spec fn v_null() -> ExprV {
    ExprV::Value(JsonV::Null)
}

fn e_null() -> (r: Expr)
    ensures
        r@ == v_null(),
{
    Expr::Value(Json::Null)
}

pub open spec fn v_flag(b: bool) -> ExprV {
    ExprV::Value(JsonV::Bool(b))
}

fn e_flag(b: bool) -> (r: Expr)
    ensures
        r@ == v_flag(b),
{
    Expr::Value(Json::Bool(b))
}

pub open spec fn v_field(base: Seq<char>, field: Seq<char>) -> ExprV {
    ExprV::Field { base, field }
}

fn e_field(base: &str, field: &str) -> (r: Expr)
    ensures
        r@ == v_field(base@, field@),
{
    Expr::Field { base: name(base), field: field.to_owned() }
}

pub open spec fn v_field_or(base: Seq<char>, field: Seq<char>, default: ExprV) -> ExprV {
    ExprV::FieldOr { base, field, default: Box::new(default) }
}

fn e_field_or(base: &str, field: &str, default: Expr) -> (r: Expr)
    ensures
        r@ == v_field_or(base@, field@, default@),
{
    Expr::FieldOr { base: name(base), field: field.to_owned(), default: Box::new(default) }
}

pub open spec fn v_string_or(value: ExprV, default: ExprV) -> ExprV {
    ExprV::StringOr { value: Box::new(value), default: Box::new(default) }
}

fn e_string_or(value: Expr, default: Expr) -> (r: Expr)
    ensures
        r@ == v_string_or(value@, default@),
{
    Expr::StringOr { value: Box::new(value), default: Box::new(default) }
}

pub open spec fn v_argument(base: Seq<char>, field: Seq<char>) -> ExprV {
    v_string_or(v_field_or(base, field, v_text(""@)), v_text(""@))
}

fn e_argument(base: &str, field: &str) -> (r: Expr)
    ensures
        r@ == v_argument(base@, field@),
{
    e_string_or(e_field_or(base, field, e_text("")), e_text(""))
}

pub open spec fn v_if(cond: ExprV, yes: ExprV, no: ExprV) -> ExprV {
    ExprV::If { cond: Box::new(cond), then_value: Box::new(yes), else_value: Box::new(no) }
}

fn e_if(cond: Expr, yes: Expr, no: Expr) -> (r: Expr)
    ensures
        r@ == v_if(cond@, yes@, no@),
{
    Expr::If { cond: Box::new(cond), then_value: Box::new(yes), else_value: Box::new(no) }
}

pub open spec fn v_is_empty(base: Seq<char>) -> ExprV {
    ExprV::IsEmpty { base }
}

fn e_is_empty(base: &str) -> (r: Expr)
    ensures
        r@ == v_is_empty(base@),
{
    Expr::IsEmpty { base: name(base) }
}

pub open spec fn v_len(base: Seq<char>) -> ExprV {
    ExprV::Len { base }
}

fn e_len(base: &str) -> (r: Expr)
    ensures
        r@ == v_len(base@),
{
    Expr::Len { base: name(base) }
}

pub open spec fn v_pending(base: Seq<char>) -> ExprV {
    ExprV::HasPendingToolCalls { base }
}

fn e_pending(base: &str) -> (r: Expr)
    ensures
        r@ == v_pending(base@),
{
    Expr::HasPendingToolCalls { base: name(base) }
}

pub open spec fn v_eq(left: ExprV, right: ExprV) -> ExprV {
    ExprV::Eq { left: Box::new(left), right: Box::new(right) }
}

fn e_eq(left: Expr, right: Expr) -> (r: Expr)
    ensures
        r@ == v_eq(left@, right@),
{
    Expr::Eq { left: Box::new(left), right: Box::new(right) }
}

pub open spec fn v_lt(left: ExprV, right: ExprV) -> ExprV {
    ExprV::Lt { left: Box::new(left), right: Box::new(right) }
}

fn e_lt(left: Expr, right: Expr) -> (r: Expr)
    ensures
        r@ == v_lt(left@, right@),
{
    Expr::Lt { left: Box::new(left), right: Box::new(right) }
}

pub open spec fn v_or(left: ExprV, right: ExprV) -> ExprV {
    ExprV::Or { left: Box::new(left), right: Box::new(right) }
}

fn e_or(left: Expr, right: Expr) -> (r: Expr)
    ensures
        r@ == v_or(left@, right@),
{
    Expr::Or { left: Box::new(left), right: Box::new(right) }
}

pub open spec fn v_and(left: ExprV, right: ExprV) -> ExprV {
    ExprV::And { left: Box::new(left), right: Box::new(right) }
}

fn e_and(left: Expr, right: Expr) -> (r: Expr)
    ensures
        r@ == v_and(left@, right@),
{
    Expr::And { left: Box::new(left), right: Box::new(right) }
}

pub open spec fn v_plus(left: ExprV, right: ExprV) -> ExprV {
    ExprV::Add { left: Box::new(left), right: Box::new(right) }
}

fn e_plus(left: Expr, right: Expr) -> (r: Expr)
    ensures
        r@ == v_plus(left@, right@),
{
    Expr::Add { left: Box::new(left), right: Box::new(right) }
}

pub open spec fn v_minus(left: ExprV, right: ExprV) -> ExprV {
    ExprV::Sub { left: Box::new(left), right: Box::new(right) }
}

fn e_minus(left: Expr, right: Expr) -> (r: Expr)
    ensures
        r@ == v_minus(left@, right@),
{
    Expr::Sub { left: Box::new(left), right: Box::new(right) }
}

pub open spec fn v_push(base: Seq<char>, value: ExprV) -> ExprV {
    ExprV::Push { base, value: Box::new(value) }
}

fn e_push(base: &str, value: Expr) -> (r: Expr)
    ensures
        r@ == v_push(base@, value@),
{
    Expr::Push { base: name(base), value: Box::new(value) }
}

pub open spec fn v_index(base: Seq<char>, index: ExprV) -> ExprV {
    ExprV::Index { base, index: Box::new(index) }
}

fn e_index(base: &str, index: Expr) -> (r: Expr)
    ensures
        r@ == v_index(base@, index@),
{
    Expr::Index { base: name(base), index: Box::new(index) }
}

pub open spec fn v_show(value: ExprV) -> ExprV {
    ExprV::ToString { value: Box::new(value) }
}

fn e_show(value: Expr) -> (r: Expr)
    ensures
        r@ == v_show(value@),
{
    Expr::ToString { value: Box::new(value) }
}

fn no_args() -> (r: Vec<Expr>)
    ensures
        ir::exprs(r@) == Seq::<ExprV>::empty(),
{
    let list: Vec<Expr> = Vec::new();
    assert(ir::exprs(list@) =~= Seq::empty());
    list
}

/// A list with one more expression.
fn given(list: Vec<Expr>, e: Expr) -> (r: Vec<Expr>)
    ensures
        ir::exprs(r@) == ir::exprs(list@).push(e@),
{
    let mut out = list;
    out.push(e);
    assert(ir::exprs(out@) =~= ir::exprs(list@).push(e@));
    out
}

fn no_named() -> (r: Vec<(String, Expr)>)
    ensures
        ir::named_exprs(r@) == Seq::<(Seq<char>, ExprV)>::empty(),
{
    let list: Vec<(String, Expr)> = Vec::new();
    assert(ir::named_exprs(list@) =~= Seq::empty());
    list
}

/// A list with one more named expression.
fn named(list: Vec<(String, Expr)>, key: &str, e: Expr) -> (r: Vec<(String, Expr)>)
    ensures
        ir::named_exprs(r@) == ir::named_exprs(list@).push((key@, e@)),
{
    let mut out = list;
    out.push((key.to_owned(), e));
    assert(ir::named_exprs(out@) =~= ir::named_exprs(list@).push((key@, e@)));
    out
}

fn no_instrs() -> (r: Vec<Instr>)
    ensures
        ir::instrs(r@) == Seq::<InstrV>::empty(),
{
    let list: Vec<Instr> = Vec::new();
    assert(ir::instrs(list@) =~= Seq::empty());
    list
}

/// A list with one more instruction.
fn then_do(list: Vec<Instr>, i: Instr) -> (r: Vec<Instr>)
    ensures
        ir::instrs(r@) == ir::instrs(list@).push(i@),
{
    let mut out = list;
    out.push(i);
    assert(ir::instrs(out@) =~= ir::instrs(list@).push(i@));
    out
}

fn no_params() -> (r: Vec<Var>)
    ensures
        ir::var_names(r@) == Seq::<Seq<char>>::empty(),
{
    let list: Vec<Var> = Vec::new();
    assert(ir::var_names(list@) =~= Seq::empty());
    list
}

/// A list with one more parameter.
fn taking(list: Vec<Var>, x: &str) -> (r: Vec<Var>)
    ensures
        ir::var_names(r@) == ir::var_names(list@).push(x@),
{
    let mut out = list;
    out.push(name(x));
    assert(ir::var_names(out@) =~= ir::var_names(list@).push(x@));
    out
}

fn e_object(list: Vec<(String, Expr)>) -> (r: Expr)
    ensures
        r@ == ExprV::Object(ir::named_exprs(list@)),
{
    let e = Expr::Object(list);
    proof {
        ir::expr_view_parts(e);
    }
    e
}

fn e_array(list: Vec<Expr>) -> (r: Expr)
    ensures
        r@ == ExprV::Array(ir::exprs(list@)),
{
    let e = Expr::Array(list);
    proof {
        ir::expr_view_parts(e);
    }
    e
}

fn e_value(v: Json) -> (r: Expr)
    ensures
        r@ == ExprV::Value(v@),
{
    Expr::Value(v)
}

pub open spec fn v_let(out: Seq<char>, expr: ExprV) -> InstrV {
    InstrV::Let { out, expr }
}

fn i_let(out: &str, expr: Expr) -> (r: Instr)
    ensures
        r@ == v_let(out@, expr@),
{
    Instr::Let { out: name(out), expr }
}

fn i_turn(model: &str) -> (r: Instr)
    ensures
        r@ == (InstrV::Infer {
            out: "response"@,
            model: ExprV::Value(JsonV::Str(model@)),
            prompt: PromptRefV::Var("history"@),
            on_error: EffectErrorMode::Abort,
            tools: None,
        }),
{
    Instr::Infer {
        out: name("response"),
        model: e_text(model),
        prompt: PromptRef::Var(name("history")),
        on_error: EffectErrorMode::Abort,
        tools: None,
    }
}

fn i_child() -> (r: Instr)
    ensures
        r@ == (InstrV::Infer {
            out: "infer_result"@,
            model: v_var("infer_model"@),
            prompt: PromptRefV::Var("infer_prompt"@),
            on_error: EffectErrorMode::Bind,
            tools: Some(Seq::empty()),
        }),
{
    let no_tools: Vec<String> = Vec::new();
    assert(op::texts(no_tools@) =~= Seq::empty());
    Instr::Infer {
        out: name("infer_result"),
        model: e_var("infer_model"),
        prompt: PromptRef::Var(name("infer_prompt")),
        on_error: EffectErrorMode::Bind,
        tools: Some(no_tools),
    }
}

pub open spec fn v_select(history: Seq<char>, ids: ExprV) -> ExprV {
    ExprV::SelectToolResults { history, ids: Box::new(ids) }
}

fn e_select(history: &str, ids: Expr) -> (r: Expr)
    ensures
        r@ == v_select(history@, ids@),
{
    Expr::SelectToolResults { history: name(history), ids: Box::new(ids) }
}

pub open spec fn v_concat(left: ExprV, right: ExprV) -> ExprV {
    ExprV::Concat { left: Box::new(left), right: Box::new(right) }
}

fn e_concat(left: Expr, right: Expr) -> (r: Expr)
    ensures
        r@ == v_concat(left@, right@),
{
    Expr::Concat { left: Box::new(left), right: Box::new(right) }
}

/// A branch that hands nothing over.
pub open spec fn v_branch(cond: ExprV, yes: u32, no: u32) -> TerminatorV {
    TerminatorV::If {
        cond,
        then_block: yes,
        then_args: Seq::empty(),
        else_block: no,
        else_args: Seq::empty(),
    }
}

fn t_branch(cond: Expr, yes: u32, no: u32) -> (r: Terminator)
    ensures
        r@ == v_branch(cond@, yes, no),
{
    Terminator::If {
        cond,
        then_block: BlockId(yes),
        then_args: no_args(),
        else_block: BlockId(no),
        else_args: no_args(),
    }
}

/// The answer to a call that cannot be carried out.
pub open spec fn complaint(error: Seq<char>, message: Seq<char>) -> JsonV {
    JsonV::Object(
        seq![
            ("error"@, JsonV::Str(error)),
            ("message"@, JsonV::Str(message)),
            ("ok"@, JsonV::Bool(false)),
        ],
    )
}

/// The answer to a call without what it needs.
pub open spec fn incomplete() -> JsonV {
    complaint("invalid_arguments"@, "tool requires non-empty string arguments"@)
}

fn complain(error: &str, message: &str) -> (r: Json)
    ensures
        r@ == complaint(error@, message@),
{
    record3("error", Json::text(error), "message", Json::text(message), "ok", Json::Bool(false))
}

fn unknown_message(tools: &str) -> (r: String)
    ensures
        r@ == "unknown tool; available tools: "@ + tools@,
{
    let mut out = "unknown tool; available tools: ".to_owned();
    out.append(tools);
    out
}

/// A turn: the model is asked, and what it said is taken apart.  A turn is
/// over where no tool is called, nothing was cut off and no call is open; the
/// turn budget is a ceiling only.
pub open spec fn entry_block(model: Seq<char>) -> BlockV {
    BlockV {
        params: Seq::empty().push("history"@).push("turns_left"@),
        instructions: Seq::empty()
            .push(InstrV::Infer {
                out: "response"@,
                model: ExprV::Value(JsonV::Str(model)),
                prompt: PromptRefV::Var("history"@),
                on_error: EffectErrorMode::Abort,
                tools: None,
            })
            .push(v_let("tool_calls"@, v_field("response"@, "tool_calls"@)))
            .push(v_let("no_tool_calls"@, v_is_empty("tool_calls"@)))
            .push(v_let("finish_reason"@, v_field_or("response"@, "finish_reason"@, v_null())))
            .push(v_let("is_truncated"@, v_eq(v_var("finish_reason"@), v_text("length"@))))
            .push(v_let("not_truncated"@, v_eq(v_var("is_truncated"@), v_flag(false))))
            .push(v_let("has_pending_tool_calls"@, v_pending("history"@)))
            .push(v_let(
                "no_pending_tool_calls"@,
                v_eq(v_var("has_pending_tool_calls"@), v_flag(false)),
            ))
            .push(v_let(
                "can_stop"@,
                v_and(
                    v_and(v_var("no_tool_calls"@), v_var("not_truncated"@)),
                    v_var("no_pending_tool_calls"@),
                ),
            ))
            .push(v_let("no_turns_left"@, v_eq(v_var("turns_left"@), v_int(0))))
            .push(v_let("should_return"@, v_or(v_var("can_stop"@), v_var("no_turns_left"@))))
            .push(v_let("content"@, v_argument("response"@, "content"@)))
            .push(v_let("content_empty"@, v_is_empty("content"@))),
        terminator: v_branch(v_var("should_return"@), 16, 14),
    }
}

fn make_entry_block(model: &str) -> (r: Block)
    ensures
        r@ == entry_block(model@),
{
    let ins = no_instrs();
    let ins = then_do(ins, i_turn(model));
    let ins = then_do(ins, i_let("tool_calls", e_field("response", "tool_calls")));
    let ins = then_do(ins, i_let("no_tool_calls", e_is_empty("tool_calls")));
    let ins = then_do(
        ins,
        i_let("finish_reason", e_field_or("response", "finish_reason", e_null())),
    );
    let ins = then_do(ins, i_let("is_truncated", e_eq(e_var("finish_reason"), e_text("length"))));
    let ins = then_do(ins, i_let("not_truncated", e_eq(e_var("is_truncated"), e_flag(false))));
    let ins = then_do(ins, i_let("has_pending_tool_calls", e_pending("history")));
    let ins = then_do(
        ins,
        i_let("no_pending_tool_calls", e_eq(e_var("has_pending_tool_calls"), e_flag(false))),
    );
    let ins = then_do(
        ins,
        i_let(
            "can_stop",
            e_and(
                e_and(e_var("no_tool_calls"), e_var("not_truncated")),
                e_var("no_pending_tool_calls"),
            ),
        ),
    );
    let ins = then_do(ins, i_let("no_turns_left", e_eq(e_var("turns_left"), e_int(0))));
    let ins = then_do(ins, i_let("should_return", e_or(e_var("can_stop"), e_var("no_turns_left"))));
    let ins = then_do(ins, i_let("content", e_argument("response", "content")));
    let ins = then_do(ins, i_let("content_empty", e_is_empty("content")));
    Block {
        params: taking(taking(no_params(), "history"), "turns_left"),
        instructions: ins,
        terminator: t_branch(e_var("should_return"), 16, 14),
    }
}

/// A natural end: the response as it is.
pub open spec fn done_block() -> BlockV {
    BlockV {
        params: Seq::empty(),
        instructions: Seq::empty(),
        terminator: TerminatorV::Return { value: v_var("response"@) },
    }
}

fn make_done_block() -> (r: Block)
    ensures
        r@ == done_block(),
{
    let ins = no_instrs();
    Block {
        params: no_params(),
        instructions: ins,
        terminator: Terminator::Return { value: e_var("response") },
    }
}

/// The calls of the model become part of the history.
pub open spec fn prepare_block() -> BlockV {
    BlockV {
        params: Seq::empty(),
        instructions: Seq::empty()
            .push(v_let(
                "history_with_assistant"@,
                v_push(
                    "history"@,
                    ExprV::Object(Seq::empty().push((
                        "content"@,
                        v_if(v_var("content_empty"@), v_null(), v_var("content"@)),
                    )).push(("role"@, v_text("assistant"@))).push((
                        "tool_calls"@,
                        v_field("response"@, "tool_calls"@),
                    ))),
                ),
            )),
        terminator: TerminatorV::Goto {
            block: 3,
            args: Seq::empty().push(v_var("history_with_assistant"@)).push(v_var("tool_calls"@))
                .push(v_int(0)).push(v_var("turns_left"@)),
        },
    }
}

fn make_prepare_block() -> (r: Block)
    ensures
        r@ == prepare_block(),
{
    let ins = no_instrs();
    let ins = then_do(
        ins,
        i_let(
            "history_with_assistant",
            e_push(
                "history",
                e_object(named(
                    named(
                        named(
                            no_named(),
                            "content",
                            e_if(e_var("content_empty"), e_null(), e_var("content")),
                        ),
                        "role",
                        e_text("assistant"),
                    ),
                    "tool_calls",
                    e_field("response", "tool_calls"),
                )),
            ),
        ),
    );
    Block {
        params: no_params(),
        instructions: ins,
        terminator: Terminator::Goto {
            block: BlockId(3),
            args: given(
                given(
                    given(given(no_args(), e_var("history_with_assistant")), e_var("tool_calls")),
                    e_int(0),
                ),
                e_var("turns_left"),
            ),
        },
    }
}

/// The loop over the calls.
pub open spec fn loop_block() -> BlockV {
    BlockV {
        params: Seq::empty().push("history"@).push("tool_calls"@).push("i"@).push("turns_left"@),
        instructions: Seq::empty()
            .push(v_let("keep_looping"@, v_lt(v_var("i"@), v_len("tool_calls"@)))),
        terminator: v_branch(v_var("keep_looping"@), 4, 5),
    }
}

fn make_loop_block() -> (r: Block)
    ensures
        r@ == loop_block(),
{
    let ins = no_instrs();
    let ins = then_do(ins, i_let("keep_looping", e_lt(e_var("i"), e_len("tool_calls"))));
    Block {
        params: taking(
            taking(taking(taking(no_params(), "history"), "tool_calls"), "i"),
            "turns_left",
        ),
        instructions: ins,
        terminator: t_branch(e_var("keep_looping"), 4, 5),
    }
}

/// One call: its name and its arguments.
pub open spec fn body_block() -> BlockV {
    BlockV {
        params: Seq::empty(),
        instructions: Seq::empty()
            .push(v_let("call"@, v_index("tool_calls"@, v_var("i"@))))
            .push(v_let("function_name"@, v_argument("call"@, "name"@)))
            .push(v_let(
                "arguments"@,
                v_field_or("call"@, "arguments"@, ExprV::Object(Seq::empty())),
            ))
            .push(v_let("is_infer_tool"@, v_eq(v_var("function_name"@), v_text("infer"@)))),
        terminator: v_branch(v_var("is_infer_tool"@), 8, 6),
    }
}

fn make_body_block() -> (r: Block)
    ensures
        r@ == body_block(),
{
    let ins = no_instrs();
    let ins = then_do(ins, i_let("call", e_index("tool_calls", e_var("i"))));
    let ins = then_do(ins, i_let("function_name", e_argument("call", "name")));
    let ins = then_do(
        ins,
        i_let("arguments", e_field_or("call", "arguments", e_object(no_named()))),
    );
    let ins = then_do(ins, i_let("is_infer_tool", e_eq(e_var("function_name"), e_text("infer"))));
    Block {
        params: no_params(),
        instructions: ins,
        terminator: t_branch(e_var("is_infer_tool"), 8, 6),
    }
}

/// The next turn.
pub open spec fn next_block() -> BlockV {
    BlockV {
        params: Seq::empty(),
        instructions: Seq::empty()
            .push(v_let("next_turns_left"@, v_minus(v_var("turns_left"@), v_int(1)))),
        terminator: TerminatorV::Goto {
            block: 0,
            args: Seq::empty().push(v_var("history"@)).push(v_var("next_turns_left"@)),
        },
    }
}

fn make_next_block() -> (r: Block)
    ensures
        r@ == next_block(),
{
    let ins = no_instrs();
    let ins = then_do(ins, i_let("next_turns_left", e_minus(e_var("turns_left"), e_int(1))));
    Block {
        params: no_params(),
        instructions: ins,
        terminator: Terminator::Goto {
            block: BlockId(0),
            args: given(given(no_args(), e_var("history")), e_var("next_turns_left")),
        },
    }
}

/// Is it the shell?
pub open spec fn shell_dispatch_block(other: u32) -> BlockV {
    BlockV {
        params: Seq::empty(),
        instructions: Seq::empty()
            .push(v_let("is_shell_tool"@, v_eq(v_var("function_name"@), v_text("shell"@)))),
        terminator: v_branch(v_var("is_shell_tool"@), 7, other),
    }
}

fn make_shell_dispatch_block(other: u32) -> (r: Block)
    ensures
        r@ == shell_dispatch_block(other),
{
    let ins = no_instrs();
    let ins = then_do(ins, i_let("is_shell_tool", e_eq(e_var("function_name"), e_text("shell"))));
    Block {
        params: no_params(),
        instructions: ins,
        terminator: t_branch(e_var("is_shell_tool"), 7, other),
    }
}

/// The shell needs a command.
pub open spec fn shell_block() -> BlockV {
    BlockV {
        params: Seq::empty(),
        instructions: Seq::empty()
            .push(v_let("command"@, v_argument("arguments"@, "command"@)))
            .push(v_let("missing_command"@, v_is_empty("command"@))),
        terminator: v_branch(v_var("missing_command"@), 11, 12),
    }
}

fn make_shell_block() -> (r: Block)
    ensures
        r@ == shell_block(),
{
    let ins = no_instrs();
    let ins = then_do(ins, i_let("command", e_argument("arguments", "command")));
    let ins = then_do(ins, i_let("missing_command", e_is_empty("command")));
    Block {
        params: no_params(),
        instructions: ins,
        terminator: t_branch(e_var("missing_command"), 11, 12),
    }
}

/// The earlier results that an inference refers to, and the references that
/// lead to none.
pub open spec fn v_references() -> ExprV {
    v_select(
        "history"@,
        v_field_or("arguments"@, "context_refs"@, ExprV::Value(JsonV::Array(Seq::empty()))),
    )
}

fn e_references() -> (r: Expr)
    ensures
        r@ == v_references(),
{
    broadcast use json::group_json;

    let none: Vec<Json> = Vec::new();
    assert(json::values(none@) =~= Seq::empty());
    e_select("history", e_field_or("arguments", "context_refs", e_value(Json::Array(none))))
}

/// The answer to an inference with references that lead nowhere.
pub open spec fn v_unresolved() -> ExprV {
    ExprV::Object(
        Seq::empty().push(("error"@, v_text("unresolved_context_refs"@))).push((
            "message"@,
            v_text("context_refs must name results of earlier tool calls"@),
        )).push(("missing"@, v_var("missing_refs"@))).push((
            "ok"@,
            ExprV::Value(JsonV::Bool(false)),
        )),
    )
}

fn e_unresolved() -> (r: Expr)
    ensures
        r@ == v_unresolved(),
{
    let fields = named(no_named(), "error", e_text("unresolved_context_refs"));
    let fields = named(
        fields,
        "message",
        e_text("context_refs must name results of earlier tool calls"),
    );
    let fields = named(fields, "missing", e_var("missing_refs"));
    e_object(named(fields, "ok", e_value(Json::Bool(false))))
}

/// An inference needs a model and a prompt, and every reference that it makes
/// to an earlier result has to lead to one.
pub open spec fn infer_block() -> BlockV {
    BlockV {
        params: Seq::empty(),
        instructions: Seq::empty()
            .push(v_let("infer_model"@, v_argument("arguments"@, "model"@)))
            .push(v_let("infer_prompt_text"@, v_argument("arguments"@, "prompt"@)))
            .push(v_let("missing_infer_model"@, v_is_empty("infer_model"@)))
            .push(v_let("missing_infer_prompt"@, v_is_empty("infer_prompt_text"@)))
            .push(v_let(
                "invalid_infer_arguments"@,
                v_or(v_var("missing_infer_model"@), v_var("missing_infer_prompt"@)),
            ))
            .push(v_let("infer_context"@, v_references()))
            .push(v_let("missing_refs"@, v_field("infer_context"@, "missing"@)))
            .push(v_let("refs_resolved"@, v_is_empty("missing_refs"@)))
            .push(v_let(
                "refs_unresolved"@,
                v_eq(v_var("refs_resolved"@), ExprV::Value(JsonV::Bool(false))),
            ))
            .push(v_let(
                "infer_refused"@,
                v_or(v_var("invalid_infer_arguments"@), v_var("refs_unresolved"@)),
            ))
            .push(v_let(
                "infer_refusal"@,
                v_if(
                    v_var("invalid_infer_arguments"@),
                    ExprV::Value(incomplete()),
                    v_unresolved(),
                ),
            )),
        terminator: TerminatorV::If {
            cond: v_var("infer_refused"@),
            then_block: 9,
            then_args: Seq::empty().push(v_show(v_var("infer_refusal"@))),
            else_block: 13,
            else_args: Seq::empty(),
        },
    }
}

fn make_infer_block() -> (r: Block)
    ensures
        r@ == infer_block(),
{
    let ins = no_instrs();
    let ins = then_do(ins, i_let("infer_model", e_argument("arguments", "model")));
    let ins = then_do(ins, i_let("infer_prompt_text", e_argument("arguments", "prompt")));
    let ins = then_do(ins, i_let("missing_infer_model", e_is_empty("infer_model")));
    let ins = then_do(ins, i_let("missing_infer_prompt", e_is_empty("infer_prompt_text")));
    let ins = then_do(
        ins,
        i_let(
            "invalid_infer_arguments",
            e_or(e_var("missing_infer_model"), e_var("missing_infer_prompt")),
        ),
    );
    let ins = then_do(ins, i_let("infer_context", e_references()));
    let ins = then_do(ins, i_let("missing_refs", e_field("infer_context", "missing")));
    let ins = then_do(ins, i_let("refs_resolved", e_is_empty("missing_refs")));
    let ins = then_do(
        ins,
        i_let("refs_unresolved", e_eq(e_var("refs_resolved"), e_value(Json::Bool(false)))),
    );
    let ins = then_do(
        ins,
        i_let(
            "infer_refused",
            e_or(e_var("invalid_infer_arguments"), e_var("refs_unresolved")),
        ),
    );
    let ins = then_do(
        ins,
        i_let(
            "infer_refusal",
            e_if(
                e_var("invalid_infer_arguments"),
                e_value(
                    complain("invalid_arguments", "tool requires non-empty string arguments"),
                ),
                e_unresolved(),
            ),
        ),
    );
    Block {
        params: no_params(),
        instructions: ins,
        terminator: Terminator::If {
            cond: e_var("infer_refused"),
            then_block: BlockId(9),
            then_args: given(no_args(), e_show(e_var("infer_refusal"))),
            else_block: BlockId(13),
            else_args: no_args(),
        },
    }
}

/// The answer to a call becomes part of the history.
pub open spec fn append_block() -> BlockV {
    BlockV {
        params: Seq::empty().push("tool_content"@),
        instructions: Seq::empty()
            .push(v_let(
                "tool_message"@,
                ExprV::Object(Seq::empty().push((
                    "content"@,
                    v_var("tool_content"@),
                )).push(("role"@, v_text("tool"@))).push((
                    "tool_call_id"@,
                    v_field("call"@, "id"@),
                ))),
            ))
            .push(v_let("next_history"@, v_push("history"@, v_var("tool_message"@))))
            .push(v_let("next_i"@, v_plus(v_var("i"@), v_int(1)))),
        terminator: TerminatorV::Goto {
            block: 3,
            args: Seq::empty().push(v_var("next_history"@)).push(v_var("tool_calls"@))
                .push(v_var("next_i"@)).push(v_var("turns_left"@)),
        },
    }
}

fn make_append_block() -> (r: Block)
    ensures
        r@ == append_block(),
{
    let ins = no_instrs();
    let ins = then_do(
        ins,
        i_let(
            "tool_message",
            e_object(named(
                named(named(no_named(), "content", e_var("tool_content")), "role", e_text("tool")),
                "tool_call_id",
                e_field("call", "id"),
            )),
        ),
    );
    let ins = then_do(ins, i_let("next_history", e_push("history", e_var("tool_message"))));
    let ins = then_do(ins, i_let("next_i", e_plus(e_var("i"), e_int(1))));
    Block {
        params: taking(no_params(), "tool_content"),
        instructions: ins,
        terminator: Terminator::Goto {
            block: BlockId(3),
            args: given(
                given(
                    given(given(no_args(), e_var("next_history")), e_var("tool_calls")),
                    e_var("next_i"),
                ),
                e_var("turns_left"),
            ),
        },
    }
}

/// An unknown tool is answered with the known ones.
pub open spec fn unknown_block(tools: Seq<char>) -> BlockV {
    BlockV {
        params: Seq::empty(),
        instructions: Seq::empty()
            .push(v_let(
                "invalid_message"@,
                ExprV::Value(complaint(
                    "unknown_tool"@,
                    "unknown tool; available tools: "@ + tools,
                )),
            )),
        terminator: TerminatorV::Goto {
            block: 9,
            args: Seq::empty().push(v_show(v_var("invalid_message"@))),
        },
    }
}

fn make_unknown_block(tools: &str) -> (r: Block)
    ensures
        r@ == unknown_block(tools@),
{
    let ins = no_instrs();
    let ins = then_do(
        ins,
        i_let(
            "invalid_message",
            e_value(complain("unknown_tool", unknown_message(tools).as_str())),
        ),
    );
    Block {
        params: no_params(),
        instructions: ins,
        terminator: Terminator::Goto {
            block: BlockId(9),
            args: given(no_args(), e_show(e_var("invalid_message"))),
        },
    }
}

/// A call without its arguments is answered so.
pub open spec fn invalid_block() -> BlockV {
    BlockV {
        params: Seq::empty(),
        instructions: Seq::empty()
            .push(v_let(
                "invalid_message"@,
                ExprV::Value(incomplete()),
            )),
        terminator: TerminatorV::Goto {
            block: 9,
            args: Seq::empty().push(v_show(v_var("invalid_message"@))),
        },
    }
}

fn make_invalid_block() -> (r: Block)
    ensures
        r@ == invalid_block(),
{
    let ins = no_instrs();
    let ins = then_do(
        ins,
        i_let(
            "invalid_message",
            e_value(complain("invalid_arguments", "tool requires non-empty string arguments")),
        ),
    );
    Block {
        params: no_params(),
        instructions: ins,
        terminator: Terminator::Goto {
            block: BlockId(9),
            args: given(no_args(), e_show(e_var("invalid_message"))),
        },
    }
}

/// The command is run.
pub open spec fn shell_eval_block(gated: bool) -> BlockV {
    BlockV {
        params: Seq::empty(),
        instructions: Seq::empty()
            .push(InstrV::Eval {
                out: "eval_result"@,
                request: EvalRequestV::Shell { command: v_var("command"@) },
                require_approval: gated,
            })
            .push(v_let("tool_content"@, v_show(v_var("eval_result"@)))),
        terminator: TerminatorV::Goto { block: 9, args: Seq::empty().push(v_var("tool_content"@)) },
    }
}

fn make_shell_eval_block(gated: bool) -> (r: Block)
    ensures
        r@ == shell_eval_block(gated),
{
    let ins = no_instrs();
    let ins = then_do(
        ins,
        Instr::Eval {
            out: name("eval_result"),
            request: EvalRequest::Shell { command: e_var("command") },
            require_approval: gated,
        },
    );
    let ins = then_do(ins, i_let("tool_content", e_show(e_var("eval_result"))));
    Block {
        params: no_params(),
        instructions: ins,
        terminator: Terminator::Goto {
            block: BlockId(9),
            args: given(no_args(), e_var("tool_content")),
        },
    }
}

/// The inner inference, which is offered no tool: it is asked the prompt after
/// the results that were referred to.  Its text is the answer, or all of it
/// where it has no text; a failure is an answer too.
pub open spec fn infer_eval_block() -> BlockV {
    BlockV {
        params: Seq::empty(),
        instructions: Seq::empty()
            .push(v_let(
                "infer_prompt"@,
                v_concat(
                    v_field("infer_context"@, "messages"@),
                    ExprV::Array(Seq::empty().push(ExprV::Object(Seq::empty().push((
                        "content"@,
                        v_var("infer_prompt_text"@),
                    )).push(("role"@, v_text("user"@)))))),
                ),
            ))
            .push(InstrV::Infer {
                out: "infer_result"@,
                model: v_var("infer_model"@),
                prompt: PromptRefV::Var("infer_prompt"@),
                on_error: EffectErrorMode::Bind,
                tools: Some(Seq::empty()),
            })
            .push(v_let("infer_content"@, v_argument("infer_result"@, "content"@)))
            .push(v_let("infer_content_empty"@, v_is_empty("infer_content"@)))
            .push(v_let(
                "tool_content"@,
                v_if(
                    v_var("infer_content_empty"@),
                    v_show(v_var("infer_result"@)),
                    v_var("infer_content"@),
                ),
            )),
        terminator: TerminatorV::Goto { block: 9, args: Seq::empty().push(v_var("tool_content"@)) },
    }
}

fn make_infer_eval_block() -> (r: Block)
    ensures
        r@ == infer_eval_block(),
{
    let ins = no_instrs();
    let ins = then_do(
        ins,
        i_let(
            "infer_prompt",
            e_concat(
                e_field("infer_context", "messages"),
                e_array(given(
                    no_args(),
                    e_object(named(
                        named(no_named(), "content", e_var("infer_prompt_text")),
                        "role",
                        e_text("user"),
                    )),
                )),
            ),
        ),
    );
    let ins = then_do(ins, i_child());
    let ins = then_do(ins, i_let("infer_content", e_argument("infer_result", "content")));
    let ins = then_do(ins, i_let("infer_content_empty", e_is_empty("infer_content")));
    let ins = then_do(
        ins,
        i_let(
            "tool_content",
            e_if(
                e_var("infer_content_empty"),
                e_show(e_var("infer_result")),
                e_var("infer_content"),
            ),
        ),
    );
    Block {
        params: no_params(),
        instructions: ins,
        terminator: Terminator::Goto {
            block: BlockId(9),
            args: given(no_args(), e_var("tool_content")),
        },
    }
}

/// A turn that is not over: calls are carried out, silence is nudged.
pub open spec fn route_block() -> BlockV {
    BlockV {
        params: Seq::empty(),
        instructions: Seq::empty(),
        terminator: v_branch(v_var("no_tool_calls"@), 15, 2),
    }
}

fn make_route_block() -> (r: Block)
    ensures
        r@ == route_block(),
{
    let ins = no_instrs();
    Block {
        params: no_params(),
        instructions: ins,
        terminator: t_branch(e_var("no_tool_calls"), 15, 2),
    }
}

/// A stalled turn: what was said so far, and a word to go on.
pub open spec fn nudge_block() -> BlockV {
    BlockV {
        params: Seq::empty(),
        instructions: Seq::empty()
            .push(v_let(
                "history_for_nudge"@,
                v_if(
                    v_var("content_empty"@),
                    v_var("history"@),
                    v_push(
                        "history"@,
                        ExprV::Object(Seq::empty().push((
                            "content"@,
                            v_var("content"@),
                        )).push(("role"@, v_text("assistant"@)))),
                    ),
                ),
            ))
            .push(v_let(
                "nudged_history"@,
                v_push(
                    "history_for_nudge"@,
                    ExprV::Object(Seq::empty().push((
                        "content"@,
                        v_text(CONTINUE_NUDGE@),
                    )).push(("role"@, v_text("user"@)))),
                ),
            ))
            .push(v_let("nudge_turns_left"@, v_minus(v_var("turns_left"@), v_int(1)))),
        terminator: TerminatorV::Goto {
            block: 0,
            args: Seq::empty().push(v_var("nudged_history"@)).push(v_var("nudge_turns_left"@)),
        },
    }
}

fn make_nudge_block() -> (r: Block)
    ensures
        r@ == nudge_block(),
{
    let ins = no_instrs();
    let ins = then_do(
        ins,
        i_let(
            "history_for_nudge",
            e_if(
                e_var("content_empty"),
                e_var("history"),
                e_push(
                    "history",
                    e_object(named(
                        named(no_named(), "content", e_var("content")),
                        "role",
                        e_text("assistant"),
                    )),
                ),
            ),
        ),
    );
    let ins = then_do(
        ins,
        i_let(
            "nudged_history",
            e_push(
                "history_for_nudge",
                e_object(named(
                    named(no_named(), "content", e_text(CONTINUE_NUDGE)),
                    "role",
                    e_text("user"),
                )),
            ),
        ),
    );
    let ins = then_do(ins, i_let("nudge_turns_left", e_minus(e_var("turns_left"), e_int(1))));
    Block {
        params: no_params(),
        instructions: ins,
        terminator: Terminator::Goto {
            block: BlockId(0),
            args: given(given(no_args(), e_var("nudged_history")), e_var("nudge_turns_left")),
        },
    }
}

/// A natural end wins over an exhausted budget.
pub open spec fn end_block() -> BlockV {
    BlockV {
        params: Seq::empty(),
        instructions: Seq::empty(),
        terminator: v_branch(v_var("can_stop"@), 1, 17),
    }
}

fn make_end_block() -> (r: Block)
    ensures
        r@ == end_block(),
{
    let ins = no_instrs();
    Block {
        params: no_params(),
        instructions: ins,
        terminator: t_branch(e_var("can_stop"), 1, 17),
    }
}

/// An exhausted budget is noted in the response.
pub open spec fn budget_block() -> BlockV {
    BlockV {
        params: Seq::empty(),
        instructions: Seq::empty()
            .push(v_let(
                "budget_response"@,
                ExprV::Object(Seq::empty().push((
                    "content"@,
                    v_field("response"@, "content"@),
                )).push((
                    "finish_reason"@,
                    v_field_or("response"@, "finish_reason"@, v_null()),
                )).push(("input_tokens"@, v_field("response"@, "input_tokens"@))).push((
                    "metadata"@,
                    ExprV::Object(Seq::empty().push((
                        "stop_reason"@,
                        v_text("turn_budget_exhausted"@),
                    ))),
                )).push((
                    "output_tokens"@,
                    v_field("response"@, "output_tokens"@),
                )).push(("tool_calls"@, v_field("response"@, "tool_calls"@))).push((
                    "total_tokens"@,
                    v_field("response"@, "total_tokens"@),
                ))),
            )),
        terminator: TerminatorV::Return { value: v_var("budget_response"@) },
    }
}

fn make_budget_block() -> (r: Block)
    ensures
        r@ == budget_block(),
{
    let ins = no_instrs();
    let ins = then_do(
        ins,
        i_let(
            "budget_response",
            e_object(named(
                named(
                    named(
                        named(
                            named(
                                named(
                                    named(no_named(), "content", e_field("response", "content")),
                                    "finish_reason",
                                    e_field_or("response", "finish_reason", e_null()),
                                ),
                                "input_tokens",
                                e_field("response", "input_tokens"),
                            ),
                            "metadata",
                            e_object(named(
                                no_named(),
                                "stop_reason",
                                e_text("turn_budget_exhausted"),
                            )),
                        ),
                        "output_tokens",
                        e_field("response", "output_tokens"),
                    ),
                    "tool_calls",
                    e_field("response", "tool_calls"),
                ),
                "total_tokens",
                e_field("response", "total_tokens"),
            )),
        ),
    );
    Block {
        params: no_params(),
        instructions: ins,
        terminator: Terminator::Return { value: e_var("budget_response") },
    }
}

/// Is it the memory?
pub open spec fn remember_dispatch_block() -> BlockV {
    BlockV {
        params: Seq::empty(),
        instructions: Seq::empty()
            .push(v_let("is_remember_tool"@, v_eq(v_var("function_name"@), v_text("remember"@)))),
        terminator: v_branch(v_var("is_remember_tool"@), 19, 20),
    }
}

fn make_remember_dispatch_block() -> (r: Block)
    ensures
        r@ == remember_dispatch_block(),
{
    let ins = no_instrs();
    let ins = then_do(
        ins,
        i_let("is_remember_tool", e_eq(e_var("function_name"), e_text("remember"))),
    );
    Block {
        params: no_params(),
        instructions: ins,
        terminator: t_branch(e_var("is_remember_tool"), 19, 20),
    }
}

/// A memory needs content; a name is optional.
pub open spec fn remember_block() -> BlockV {
    BlockV {
        params: Seq::empty(),
        instructions: Seq::empty()
            .push(v_let("memory_name"@, v_argument("arguments"@, "name"@)))
            .push(v_let("memory_content"@, v_argument("arguments"@, "content"@)))
            .push(v_let("missing_memory_content"@, v_is_empty("memory_content"@))),
        terminator: v_branch(v_var("missing_memory_content"@), 11, 22),
    }
}

fn make_remember_block() -> (r: Block)
    ensures
        r@ == remember_block(),
{
    let ins = no_instrs();
    let ins = then_do(ins, i_let("memory_name", e_argument("arguments", "name")));
    let ins = then_do(ins, i_let("memory_content", e_argument("arguments", "content")));
    let ins = then_do(ins, i_let("missing_memory_content", e_is_empty("memory_content")));
    Block {
        params: no_params(),
        instructions: ins,
        terminator: t_branch(e_var("missing_memory_content"), 11, 22),
    }
}

/// Is it recall?
pub open spec fn recall_dispatch_block(other: u32) -> BlockV {
    BlockV {
        params: Seq::empty(),
        instructions: Seq::empty()
            .push(v_let("is_recall_tool"@, v_eq(v_var("function_name"@), v_text("recall"@)))),
        terminator: v_branch(v_var("is_recall_tool"@), 21, other),
    }
}

fn make_recall_dispatch_block(other: u32) -> (r: Block)
    ensures
        r@ == recall_dispatch_block(other),
{
    let ins = no_instrs();
    let ins = then_do(ins, i_let("is_recall_tool", e_eq(e_var("function_name"), e_text("recall"))));
    Block {
        params: no_params(),
        instructions: ins,
        terminator: t_branch(e_var("is_recall_tool"), 21, other),
    }
}

/// Recall needs a query.
pub open spec fn recall_block() -> BlockV {
    BlockV {
        params: Seq::empty(),
        instructions: Seq::empty()
            .push(v_let("recall_query"@, v_argument("arguments"@, "query"@)))
            .push(v_let("missing_recall_query"@, v_is_empty("recall_query"@))),
        terminator: v_branch(v_var("missing_recall_query"@), 11, 23),
    }
}

fn make_recall_block() -> (r: Block)
    ensures
        r@ == recall_block(),
{
    let ins = no_instrs();
    let ins = then_do(ins, i_let("recall_query", e_argument("arguments", "query")));
    let ins = then_do(ins, i_let("missing_recall_query", e_is_empty("recall_query")));
    Block {
        params: no_params(),
        instructions: ins,
        terminator: t_branch(e_var("missing_recall_query"), 11, 23),
    }
}

/// The memory is stored; a refused write is an answer.
pub open spec fn store_block() -> BlockV {
    BlockV {
        params: Seq::empty(),
        instructions: Seq::empty()
            .push(v_let(
                "memory_item"@,
                ExprV::Object(Seq::empty().push(("body"@, v_var("memory_content"@))).push((
                    "description"@,
                    v_argument("arguments"@, "description"@),
                )).push(("name"@, v_var("memory_name"@))).push((
                    "type"@,
                    v_field_or("arguments"@, "type"@, v_null()),
                ))),
            ))
            .push(InstrV::Store {
                out: "stored_id"@,
                sink: v_text("memory"@),
                op: StoreOp::Create,
                id: None,
                item: v_var("memory_item"@),
                on_error: EffectErrorMode::Bind,
            })
            .push(v_let("tool_content"@, v_show(v_var("stored_id"@)))),
        terminator: TerminatorV::Goto { block: 9, args: Seq::empty().push(v_var("tool_content"@)) },
    }
}

fn make_store_block() -> (r: Block)
    ensures
        r@ == store_block(),
{
    let ins = no_instrs();
    let ins = then_do(
        ins,
        i_let(
            "memory_item",
            e_object(named(
                named(
                    named(
                        named(no_named(), "body", e_var("memory_content")),
                        "description",
                        e_argument("arguments", "description"),
                    ),
                    "name",
                    e_var("memory_name"),
                ),
                "type",
                e_field_or("arguments", "type", e_null()),
            )),
        ),
    );
    let ins = then_do(
        ins,
        Instr::Store {
            out: name("stored_id"),
            sink: e_text("memory"),
            op: StoreOp::Create,
            id: None,
            item: e_var("memory_item"),
            on_error: EffectErrorMode::Bind,
        },
    );
    let ins = then_do(ins, i_let("tool_content", e_show(e_var("stored_id"))));
    Block {
        params: no_params(),
        instructions: ins,
        terminator: Terminator::Goto {
            block: BlockId(9),
            args: given(no_args(), e_var("tool_content")),
        },
    }
}

/// Memories are recalled; a failure is an answer.
pub open spec fn retrieve_block() -> BlockV {
    BlockV {
        params: Seq::empty(),
        instructions: Seq::empty()
            .push(InstrV::Retrieve {
                out: "recall_hits"@,
                query: v_var("recall_query"@),
                kind: Some(SourceKind::Semantic),
                max_bytes: Some(RECALL_MAX_BYTES),
                on_error: EffectErrorMode::Bind,
            })
            .push(v_let("tool_content"@, v_show(v_var("recall_hits"@)))),
        terminator: TerminatorV::Goto { block: 9, args: Seq::empty().push(v_var("tool_content"@)) },
    }
}

fn make_retrieve_block() -> (r: Block)
    ensures
        r@ == retrieve_block(),
{
    let ins = no_instrs();
    let ins = then_do(
        ins,
        Instr::Retrieve {
            out: name("recall_hits"),
            query: e_var("recall_query"),
            kind: Some(SourceKind::Semantic),
            max_bytes: Some(RECALL_MAX_BYTES),
            on_error: EffectErrorMode::Bind,
        },
    );
    let ins = then_do(ins, i_let("tool_content", e_show(e_var("recall_hits"))));
    Block {
        params: no_params(),
        instructions: ins,
        terminator: Terminator::Goto {
            block: BlockId(9),
            args: given(no_args(), e_var("tool_content")),
        },
    }
}

/// Is it this native tool?
pub open spec fn native_dispatch_block(tool: Seq<char>, body: u32, other: u32) -> BlockV {
    BlockV {
        params: Seq::empty(),
        instructions: Seq::empty()
            .push(v_let(
                "is_native_tool"@,
                v_eq(v_var("function_name"@), ExprV::Value(JsonV::Str(tool))),
            )),
        terminator: v_branch(v_var("is_native_tool"@), body, other),
    }
}

fn make_native_dispatch_block(tool: &str, body: u32, other: u32) -> (r: Block)
    ensures
        r@ == native_dispatch_block(tool@, body, other),
{
    let ins = no_instrs();
    let ins = then_do(ins, i_let("is_native_tool", e_eq(e_var("function_name"), e_text(tool))));
    Block {
        params: no_params(),
        instructions: ins,
        terminator: t_branch(e_var("is_native_tool"), body, other),
    }
}

/// The native tool is called; a text is the answer as it is, any other value as
/// JSON, and a failure is an answer too.
pub open spec fn native_block(tool: Seq<char>) -> BlockV {
    BlockV {
        params: Seq::empty(),
        instructions: Seq::empty()
            .push(InstrV::Tool {
                out: "native_tool_result"@,
                name: tool,
                arguments: v_var("arguments"@),
                on_error: EffectErrorMode::Bind,
            })
            .push(v_let(
                "tool_content"@,
                v_string_or(v_var("native_tool_result"@), v_show(v_var("native_tool_result"@))),
            )),
        terminator: TerminatorV::Goto { block: 9, args: Seq::empty().push(v_var("tool_content"@)) },
    }
}

fn make_native_block(tool: &str) -> (r: Block)
    ensures
        r@ == native_block(tool@),
{
    let ins = no_instrs();
    let ins = then_do(
        ins,
        Instr::Tool {
            out: name("native_tool_result"),
            name: tool.to_owned(),
            arguments: e_var("arguments"),
            on_error: EffectErrorMode::Bind,
        },
    );
    let ins = then_do(
        ins,
        i_let(
            "tool_content",
            e_string_or(e_var("native_tool_result"), e_show(e_var("native_tool_result"))),
        ),
    );
    Block {
        params: no_params(),
        instructions: ins,
        terminator: Terminator::Goto {
            block: BlockId(9),
            args: given(no_args(), e_var("tool_content")),
        },
    }
}

/// Where a name goes that no built-in tool has: to the first native tool, or
/// to the answer for unknown tools.
pub open spec fn fallback(c: LoopShapeV) -> u32 {
    if c.native_tools.len() == 0 {
        10
    } else {
        24
    }
}

/// Where a name goes that is not the shell.
pub open spec fn after_shell(c: LoopShapeV) -> u32 {
    if c.memory_tools {
        18
    } else {
        fallback(c)
    }
}

/// The names of all tools of a loop.
pub open spec fn tool_list(c: LoopShapeV) -> Seq<Seq<char>> {
    (if c.memory_tools {
        Seq::empty().push("shell"@).push("infer"@).push("remember"@).push("recall"@)
    } else {
        Seq::empty().push("shell"@).push("infer"@)
    }) + c.native_tools
}

/// The names of all tools of a loop, as the model sees them.
pub open spec fn available(c: LoopShapeV) -> Seq<char> {
    text::joined(tool_list(c), ", "@)
}

/// The label of the native tool that is tried after number `k`.
pub open spec fn after_native(c: LoopShapeV, k: int) -> u32 {
    if k + 1 < c.native_tools.len() {
        (24 + 2 * (k + 1)) as u32
    } else {
        10
    }
}

impl LoopShape {
    fn next_fallback(&self) -> (r: u32)
        ensures
            r == fallback(self@),
    {
        if self.native_tools.len() == 0 {
            10
        } else {
            24
        }
    }

    fn next_after_shell(&self) -> (r: u32)
        ensures
            r == after_shell(self@),
    {
        if self.memory_tools {
            18
        } else {
            self.next_fallback()
        }
    }

    fn available_tools(&self) -> (r: String)
        ensures
            r@ == available(self@),
    {
        let mut names: Vec<String> = Vec::new();
        assert(op::texts(names@) =~= Seq::empty());
        push_string(&mut names, "shell".to_owned());
        push_string(&mut names, "infer".to_owned());
        if self.memory_tools {
            push_string(&mut names, "remember".to_owned());
            push_string(&mut names, "recall".to_owned());
        }
        let ghost built_in = op::texts(names@);
        let ghost all = op::texts(self.native_tools@);
        let mut i: usize = 0;
        assert(built_in =~= built_in + all.take(0));
        while i < self.native_tools.len()
            invariant
                i <= self.native_tools@.len(),
                all == op::texts(self.native_tools@),
                op::texts(names@) == built_in + all.take(i as int),
            decreases self.native_tools@.len() - i,
        {
            push_string(&mut names, self.native_tools[i].clone());
            assert(all.take(i + 1) =~= all.take(i as int).push(all[i as int]));
            assert(op::texts(names@) =~= built_in + all.take(i + 1));
            i += 1;
        }
        assert(all.take(i as int) =~= all);
        let ghost list = op::texts(names@);
        assert(list.take(list.len() as int) =~= list);
        join_texts(&names, names.len(), ", ")
    }
}

/// The block under a label.
pub open spec fn block_under(c: LoopShapeV, label: u32) -> BlockV {
    if label == 0 {
        entry_block(c.model)
    } else if label == 1 {
        done_block()
    } else if label == 2 {
        prepare_block()
    } else if label == 3 {
        loop_block()
    } else if label == 4 {
        body_block()
    } else if label == 5 {
        next_block()
    } else if label == 6 {
        shell_dispatch_block(after_shell(c))
    } else if label == 7 {
        shell_block()
    } else if label == 8 {
        infer_block()
    } else if label == 9 {
        append_block()
    } else if label == 10 {
        unknown_block(available(c))
    } else if label == 11 {
        invalid_block()
    } else if label == 12 {
        shell_eval_block(c.shell_requires_approval)
    } else if label == 13 {
        infer_eval_block()
    } else if label == 14 {
        route_block()
    } else if label == 15 {
        nudge_block()
    } else if label == 16 {
        end_block()
    } else if label == 17 {
        budget_block()
    } else if label == 18 {
        remember_dispatch_block()
    } else if label == 19 {
        remember_block()
    } else if label == 20 {
        recall_dispatch_block(fallback(c))
    } else if label == 21 {
        recall_block()
    } else if label == 22 {
        store_block()
    } else if label == 23 {
        retrieve_block()
    } else {
        let k = (label - 24) / 2;
        if (label - 24) % 2 == 0 {
            native_dispatch_block(c.native_tools[k], (label + 1) as u32, after_native(c, k))
        } else {
            native_block(c.native_tools[k])
        }
    }
}

/// How many blocks a loop has.
pub open spec fn block_count(c: LoopShapeV) -> nat {
    (if c.memory_tools {
        24nat
    } else {
        18nat
    }) + 2 * c.native_tools.len()
}

/// The label of the block at a place.
pub open spec fn label_at(c: LoopShapeV, i: int) -> u32 {
    if c.memory_tools || i < 18 {
        i as u32
    } else {
        (i + 6) as u32
    }
}

/// The blocks of a loop.
pub open spec fn loop_blocks(c: LoopShapeV) -> ir::Blocks {
    Seq::new(block_count(c), |i: int| (label_at(c, i), block_under(c, label_at(c, i))))
}

/// The program of a loop.
pub open spec fn loop_program(c: LoopShapeV) -> ProgramV {
    ProgramV { id: "agent-loop"@, entry: 0, blocks: loop_blocks(c) }
}

fn make_block(c: &LoopShape, label: u32) -> (r: Block)
    requires
        fits(c@),
        label < 24 + 2 * c.native_tools@.len(),
    ensures
        r@ == block_under(c@, label),
{
    if label == 0 {
        make_entry_block(c.model.as_str())
    } else if label == 1 {
        make_done_block()
    } else if label == 2 {
        make_prepare_block()
    } else if label == 3 {
        make_loop_block()
    } else if label == 4 {
        make_body_block()
    } else if label == 5 {
        make_next_block()
    } else if label == 6 {
        make_shell_dispatch_block(c.next_after_shell())
    } else if label == 7 {
        make_shell_block()
    } else if label == 8 {
        make_infer_block()
    } else if label == 9 {
        make_append_block()
    } else if label == 10 {
        make_unknown_block(c.available_tools().as_str())
    } else if label == 11 {
        make_invalid_block()
    } else if label == 12 {
        make_shell_eval_block(c.shell_requires_approval)
    } else if label == 13 {
        make_infer_eval_block()
    } else if label == 14 {
        make_route_block()
    } else if label == 15 {
        make_nudge_block()
    } else if label == 16 {
        make_end_block()
    } else if label == 17 {
        make_budget_block()
    } else if label == 18 {
        make_remember_dispatch_block()
    } else if label == 19 {
        make_remember_block()
    } else if label == 20 {
        make_recall_dispatch_block(c.next_fallback())
    } else if label == 21 {
        make_recall_block()
    } else if label == 22 {
        make_store_block()
    } else if label == 23 {
        make_retrieve_block()
    } else {
        let k: usize = ((label - 24) / 2) as usize;
        assert(op::texts(c.native_tools@)[k as int] == c.native_tools@[k as int]@);
        let tool = c.native_tools[k].as_str();
        if (label - 24) % 2 == 0 {
            let other: u32 = if k + 1 < c.native_tools.len() {
                24 + 2 * (k as u32 + 1)
            } else {
                10
            };
            make_native_dispatch_block(tool, label + 1, other)
        } else {
            make_native_block(tool)
        }
    }
}

/// Builds the program of a loop.
pub fn build_loop(c: &LoopShape) -> (r: Program)
    requires
        fits(c@),
    ensures
        r@ == loop_program(c@),
{
    let ghost goal = loop_blocks(c@);
    let base: usize = if c.memory_tools {
        24
    } else {
        18
    };
    let count: usize = base + 2 * c.native_tools.len();
    let mut blocks: Vec<(BlockId, Block)> = Vec::new();
    let mut i: usize = 0;
    assert(ir::labelled(blocks@) =~= goal.take(0));
    while i < count
        invariant
            i <= count,
            count == block_count(c@),
            fits(c@),
            goal == loop_blocks(c@),
            ir::labelled(blocks@) == goal.take(i as int),
        decreases count - i,
    {
        let label: u32 = if c.memory_tools || i < 18 {
            i as u32
        } else {
            (i + 6) as u32
        };
        let ghost before = blocks@;
        let b = make_block(c, label);
        blocks.push((BlockId(label), b));
        assert(goal[i as int] == (label, b@));
        assert(ir::labelled(blocks@) =~= ir::labelled(before).push((label, b@)));
        assert(goal.take(i + 1) =~= goal.take(i as int).push(goal[i as int]));
        i += 1;
    }
    assert(goal.take(i as int) =~= goal);
    Program { id: "agent-loop".to_owned(), entry: BlockId(0), blocks }
}

/// The environment in which a loop starts.
pub open spec fn first_env(history: JsonV, max_turns: usize) -> json::Fields {
    seq![("history"@, history), ("turns_left"@, JsonV::Int(max_turns as int))]
}

/// A machine at the start of a loop.
pub open spec fn loop_machine(c: LoopShapeV, history: JsonV, max_turns: usize) -> MachineV {
    MachineV {
        program: loop_program(c),
        block: 0,
        pc: 0,
        env: first_env(history, max_turns),
        visits: Map::empty(),
        path: crate::effect::ControlPathV { digest: Seq::empty(), transitions: 0 },
    }
}

/// A machine at the start of a loop, over a history that is given as a value.
pub fn start_loop(c: &LoopShape, history: Json, max_turns: usize) -> (r: Machine)
    requires
        fits(c@),
    ensures
        r@ == loop_machine(c@, history@, max_turns),
{
    let mut env: Vec<(String, Json)> = Vec::new();
    assert(json::fields(env@) =~= Seq::empty());
    codec::add_field(&mut env, "history", history);
    codec::add_field(&mut env, "turns_left", Json::Int(max_turns as i128));
    assert(json::fields(env@) =~= first_env(history@, max_turns));
    Machine::new(build_loop(c), env)
}

/// The agent loop over a prompt, with the tools and the policies that it has.
pub fn agent_loop_ir_with_policies(
    model: Model,
    prompt: &Prompt,
    max_turns: usize,
    memory_tools: bool,
    native_tools: Vec<String>,
    shell_requires_approval: bool,
) -> (r: Machine)
    requires
        24 + 2 * native_tools@.len() <= u32::MAX,
    ensures
        r@ == loop_machine(
            LoopShapeV {
                model: model.0@,
                memory_tools,
                native_tools: op::texts(native_tools@),
                shell_requires_approval,
            },
            codec::messages_json(op::messages(prompt@)),
            max_turns,
        ),
{
    let c = LoopShape { model: model.0, memory_tools, native_tools, shell_requires_approval };
    start_loop(&c, encode_messages(prompt), max_turns)
}

/// The agent loop with native tools; commands need no approval.
pub fn agent_loop_ir_with_tools(
    model: Model,
    prompt: &Prompt,
    max_turns: usize,
    memory_tools: bool,
    native_tools: Vec<String>,
) -> (r: Machine)
    requires
        24 + 2 * native_tools@.len() <= u32::MAX,
    ensures
        r@ == loop_machine(
            LoopShapeV {
                model: model.0@,
                memory_tools,
                native_tools: op::texts(native_tools@),
                shell_requires_approval: false,
            },
            codec::messages_json(op::messages(prompt@)),
            max_turns,
        ),
{
    agent_loop_ir_with_policies(model, prompt, max_turns, memory_tools, native_tools, false)
}

/// The agent loop with or without memory tools, and without native ones.
pub fn agent_loop_ir_with_options(
    model: Model,
    prompt: &Prompt,
    max_turns: usize,
    memory_tools: bool,
) -> (r: Machine)
    ensures
        r@ == loop_machine(
            LoopShapeV {
                model: model.0@,
                memory_tools,
                native_tools: Seq::empty(),
                shell_requires_approval: false,
            },
            codec::messages_json(op::messages(prompt@)),
            max_turns,
        ),
{
    let none: Vec<String> = Vec::new();
    assert(op::texts(none@) =~= Seq::empty());
    agent_loop_ir_with_tools(model, prompt, max_turns, memory_tools, none)
}

/// The plain agent loop.
pub fn agent_loop_ir(model: Model, prompt: &Prompt, max_turns: usize) -> (r: Machine)
    ensures
        r@ == loop_machine(
            LoopShapeV {
                model: model.0@,
                memory_tools: false,
                native_tools: Seq::empty(),
                shell_requires_approval: false,
            },
            codec::messages_json(op::messages(prompt@)),
            max_turns,
        ),
{
    agent_loop_ir_with_options(model, prompt, max_turns, false)
}

/// How an agent loop is run.
#[derive(Debug)]
pub struct AgentLoopOptions {
    pub memory_tools: bool,
    pub tool_names: Vec<String>,
    /// What the final text is held to.
    pub output_contract: Option<OutputContract>,
    pub shell_requires_approval: bool,
}

/// How an agent loop ends, or where it waits.
#[derive(Debug)]
pub enum AgentLoopOutcome {
    Complete { value: Json, machine: Machine },
    AwaitingApproval { checkpoint: IrCheckpoint, pending: ApprovalRequest },
}

/// Whether a response was cut off by the turn budget.
pub open spec fn exhausted(value: JsonV) -> bool {
    match value.field("metadata"@) {
        Some(m) => m.text_field("stop_reason"@) == Some("turn_budget_exhausted"@),
        None => false,
    }
}

/// Whether a response was cut off by the turn budget.
pub fn turn_budget_exhausted(value: &Json) -> (r: bool)
    ensures
        r == exhausted(value@),
{
    match value.get("metadata") {
        Some(m) => match m.get_str("stop_reason") {
            Some(s) => same_text(s, "turn_budget_exhausted"),
            None => false,
        },
        None => false,
    }
}

/// The text of a response.
pub open spec fn response_text(value: JsonV) -> Seq<char> {
    match value.text_field("content"@) {
        Some(s) => s,
        None => Seq::empty(),
    }
}

/// The text of a response.
pub fn content_of(value: &Json) -> (r: String)
    ensures
        r@ == response_text(value@),
{
    match value.get_str("content") {
        Some(s) => s.to_owned(),
        None => {
            let out = String::new();
            assert(out@ =~= Seq::empty());
            out
        },
    }
}

/// The first errors of a list, as many as are listed.
pub open spec fn listed(errors: Seq<Seq<char>>) -> Seq<Seq<char>> {
    if errors.len() <= MAX_TRACE_ERRORS {
        errors
    } else {
        errors.take(MAX_TRACE_ERRORS as int)
    }
}

fn first_errors(errors: &Vec<String>) -> (r: Vec<String>)
    ensures
        op::texts(r@) == listed(op::texts(errors@)),
{
    let ghost all = op::texts(errors@);
    let mut out: Vec<String> = Vec::new();
    let mut i: usize = 0;
    assert(op::texts(out@) =~= all.take(0));
    while i < errors.len() && i < MAX_TRACE_ERRORS
        invariant
            i <= errors@.len(),
            i <= MAX_TRACE_ERRORS,
            all == op::texts(errors@),
            op::texts(out@) == all.take(i as int),
        decreases errors@.len() - i,
    {
        push_string(&mut out, errors[i].clone());
        assert(all.take(i + 1) =~= all.take(i as int).push(all[i as int]));
        i += 1;
    }
    assert(all.take(i as int) =~= listed(all));
    out
}

/// What is recorded of an output that does not fit.
pub open spec fn rejection(attempt: int, errors: Seq<Seq<char>>, content: Seq<char>) -> JsonV {
    JsonV::Object(
        seq![
            ("attempt"@, JsonV::Int(attempt)),
            ("errors"@, ir_hash::texts_json(listed(errors))),
            ("preview"@, JsonV::Str(text::prefix(content, 256))),
        ],
    )
}

/// What follows a completed run of the loop.
#[derive(Debug)]
pub enum Verdict {
    /// The value of the run stands.
    Accept,
    /// The output does not fit and is asked for again.
    Repair { event: Json, content: String, errors: Vec<String> },
    /// The output does not fit and all repairs are used up.
    GiveUp { event: Json, value: Json },
}

/// The model of a verdict.
pub enum VerdictV {
    Accept,
    Repair { event: JsonV, content: Seq<char>, errors: Seq<Seq<char>> },
    GiveUp { event: JsonV, value: JsonV },
}

impl Verdict {
    pub open spec fn view(&self) -> VerdictV {
        match self {
            Verdict::Accept => VerdictV::Accept,
            Verdict::Repair { event, content, errors } => VerdictV::Repair {
                event: event@,
                content: content@,
                errors: op::texts(errors@),
            },
            Verdict::GiveUp { event, value } => VerdictV::GiveUp { event: event@, value: value@ },
        }
    }
}

/// What follows a run whose text has these errors, after so many outputs that
/// did not fit.  A response that the turn budget cut off is no final answer.
pub open spec fn judged(
    value: JsonV,
    errors: Seq<Seq<char>>,
    max_repairs: usize,
    failed: usize,
) -> VerdictV {
    let content = response_text(value);
    let event = rejection(failed + 1, errors, content);
    if exhausted(value) || errors.len() == 0 {
        VerdictV::Accept
    } else if failed + 1 > max_repairs {
        VerdictV::GiveUp {
            event,
            value: output_contract::failure_value(
                output_contract::OutputContractFailureV {
                    attempts: (failed + 1) as usize,
                    errors,
                    content,
                },
            ),
        }
    } else {
        VerdictV::Repair { event, content, errors }
    }
}

/// What follows a run, given what is wrong with its text.
pub fn judge_errors(value: &Json, errors: Vec<String>, max_repairs: usize, failed: usize) -> (r:
    Verdict)
    requires
        failed < usize::MAX,
    ensures
        r@ == judged(value@, op::texts(errors@), max_repairs, failed),
{
    broadcast use json::group_json;

    if turn_budget_exhausted(value) || errors.len() == 0 {
        return Verdict::Accept;
    }
    let content = content_of(value);
    let attempt: usize = failed + 1;
    let event = record3(
        "attempt",
        Json::Int(attempt as i128),
        "errors",
        encode_texts(&first_errors(&errors)),
        "preview",
        Json::Str(preview(content.as_str(), 256)),
    );
    if attempt > max_repairs {
        let failure = OutputContractFailure { attempts: attempt, errors, content };
        Verdict::GiveUp { event, value: failure.into_value() }
    } else {
        Verdict::Repair { event, content, errors }
    }
}

/// What follows a completed run of the loop that is held to a contract.
pub fn judge(value: &Json, contract: &OutputContract, failed: usize) -> (r: Verdict)
    requires
        failed < usize::MAX,
    ensures
        r@ == judged(
            value@,
            output_contract::text_violations(contract.schema@, response_text(value@)),
            contract.max_repairs,
            failed,
        ),
{
    let errors = contract.validate_text(content_of(value).as_str());
    judge_errors(value, errors, contract.max_repairs, failed)
}

/// The errors of an output, one to a line.
pub open spec fn bulleted(errors: Seq<Seq<char>>) -> Seq<Seq<char>> {
    Seq::new(errors.len(), |i: int| "- "@ + errors[i])
}

/// What the model is told of an output that does not fit.
pub open spec fn repair_text(errors: Seq<Seq<char>>) -> Seq<char> {
    "Your final response failed validation against the required output schema:\n"@
        + text::joined(bulleted(listed(errors)), "\n"@)
        + "\n\nRespond again with ONLY a single JSON value that conforms to the output schema. No prose, no code fences, no explanation."@
}

/// What the model is told of an output that does not fit.
pub fn repair_prompt(errors: &Vec<String>) -> (r: String)
    ensures
        r@ == repair_text(op::texts(errors@)),
{
    let first = first_errors(errors);
    let ghost all = op::texts(first@);
    let mut lines: Vec<String> = Vec::new();
    let mut i: usize = 0;
    assert(op::texts(lines@) =~= bulleted(all).take(0));
    while i < first.len()
        invariant
            i <= first@.len(),
            all == op::texts(first@),
            op::texts(lines@) == bulleted(all).take(i as int),
        decreases first@.len() - i,
    {
        let mut line = "- ".to_owned();
        line.append(first[i].as_str());
        push_string(&mut lines, line);
        assert(bulleted(all).take(i + 1) =~= bulleted(all).take(i as int).push(
            bulleted(all)[i as int],
        ));
        i += 1;
    }
    assert(bulleted(all).take(i as int) =~= bulleted(all));
    let ghost shown = op::texts(lines@);
    assert(shown.take(shown.len() as int) =~= shown);
    let mut out =
        "Your final response failed validation against the required output schema:\n".to_owned();
    out.append(join_texts(&lines, lines.len(), "\n").as_str());
    out.append(
        "\n\nRespond again with ONLY a single JSON value that conforms to the output schema. No prose, no code fences, no explanation.",
    );
    out
}

/// A message as it stands in a history.
pub open spec fn said(role: Seq<char>, content: Seq<char>) -> JsonV {
    JsonV::Object(seq![("content"@, JsonV::Str(content)), ("role"@, JsonV::Str(role))])
}

/// A history with the answer that did not fit, if there was one, and the
/// request to mend it.
pub open spec fn mended(history: JsonV, content: Seq<char>, errors: Seq<Seq<char>>) -> JsonV {
    match history {
        JsonV::Array(m) => {
            let answered = if content.len() == 0 {
                m
            } else {
                m.push(said("assistant"@, content))
            };
            JsonV::Array(answered.push(said("user"@, repair_text(errors))))
        },
        _ => history,
    }
}

/// The history of a machine.
pub open spec fn history_of(m: MachineV) -> JsonV {
    match json::lookup(m.env, "history"@) {
        Some(h) => h,
        None => JsonV::Array(Seq::empty()),
    }
}

/// A machine for one repair turn: the history of the completed one with the
/// request to mend its answer, a full turn budget, and the visits carried
/// over so that effects stay distinct.
pub fn repair_machine(
    done: &Machine,
    content: &str,
    errors: &Vec<String>,
    c: &LoopShape,
    max_turns: usize,
) -> (r: Machine)
    requires
        fits(c@),
    ensures
        r@ == (MachineV {
            visits: done@.visits,
            ..loop_machine(c@, mended(history_of(done@), content@, op::texts(errors@)), max_turns)
        }),
{
    broadcast use json::group_json;

    let history = match get_field(&done.env, "history") {
        Some(h) => h.clone(),
        None => {
            let none: Vec<Json> = Vec::new();
            assert(json::values(none@) =~= Seq::empty());
            Json::Array(none)
        },
    };
    let ghost before = history@;
    let history = match history {
        Json::Array(list) => {
            let mut messages = list;
            if !content.is_empty() {
                let m = record2("content", Json::text(content), "role", Json::text("assistant"));
                messages.push(m);
            }
            let told = repair_prompt(errors);
            let m = record2("content", Json::Str(told), "role", Json::text("user"));
            messages.push(m);
            Json::Array(messages)
        },
        other => other,
    };
    assert(history@ == mended(before, content@, op::texts(errors@)));
    let mut m = start_loop(c, history, max_turns);
    m.effect_visits = copy_counts(&done.effect_visits);
    m
}

/// What a run that is held to a contract records of it.
pub open spec fn contract_record(schema: JsonV, max_repairs: usize) -> JsonV {
    JsonV::Object(
        seq![
            ("max_repairs"@, JsonV::Int(max_repairs as int)),
            ("schema_hash"@, JsonV::Str(output_contract::hash_of(schema))),
        ],
    )
}

/// What a run that is held to a contract records of it.
pub fn contract_event(contract: &OutputContract) -> (r: Json)
    ensures
        r@ == contract_record(contract.schema@, contract.max_repairs),
{
    broadcast use json::group_json;

    record2(
        "max_repairs",
        Json::Int(contract.max_repairs as i128),
        "schema_hash",
        Json::Str(contract.schema_hash()),
    )
}

/// The hash of the schema of an optional contract.
pub open spec fn opt_hash(contract: Option<&OutputContract>) -> Option<Seq<char>> {
    match contract {
        Some(c) => Some(output_contract::hash_of(c.schema@)),
        None => None,
    }
}

/// A hash, or that there is none.
pub open spec fn or_none(hash: Option<Seq<char>>) -> Seq<char> {
    match hash {
        Some(h) => h,
        None => "none"@,
    }
}

/// Whether a recording can be replayed under a contract: the schema must be
/// the one that the run was recorded with, or there must be none on both
/// sides.
pub fn check_output_schema_hash(recording: &IrReplayTrace, contract: Option<&OutputContract>) -> (r:
    Result<(), String>)
    ensures
        match r {
            Ok(_) => recording@.output_schema == opt_hash(contract),
            Err(e) => recording@.output_schema != opt_hash(contract) && e@
                == "AgentIR replay diverged: output contract schema_hash mismatch (recorded "@
                + or_none(recording@.output_schema) + ", current "@ + or_none(opt_hash(contract))
                + "); replay requires the same output schema the run was recorded with"@,
        },
{
    let current = match contract {
        Some(c) => Some(c.schema_hash()),
        None => None,
    };
    let same = match (recording.output_schema_hash(), &current) {
        (Some(a), Some(b)) => same_text(a, b.as_str()),
        (None, None) => true,
        _ => false,
    };
    if same {
        return Ok(());
    }
    let mut out = "AgentIR replay diverged: output contract schema_hash mismatch (recorded ".to_owned();
    match recording.output_schema_hash() {
        Some(h) => out.append(h),
        None => out.append("none"),
    }
    out.append(", current ");
    match &current {
        Some(h) => out.append(h.as_str()),
        None => out.append("none"),
    }
    out.append("); replay requires the same output schema the run was recorded with");
    Err(out)
}

/// The most native tools of a loop: each takes two blocks, and blocks have 32
/// bits for their labels.
pub const MOST_NATIVE_TOOLS: usize = 2147483635;

/// A run of the agent loop: the loop, what its output is held to, and how many
/// outputs did not fit.
#[derive(Debug)]
pub struct LoopRun {
    pub shape: LoopShape,
    pub max_turns: usize,
    pub contract: Option<OutputContract>,
    pub failed: usize,
}

/// The model of a run of the loop.
pub struct LoopRunV {
    pub shape: LoopShapeV,
    pub max_turns: usize,
    pub contract: Option<(JsonV, usize)>,
    pub failed: usize,
}

/// The schema and the repairs of an optional contract.
pub open spec fn opt_contract(contract: Option<OutputContract>) -> Option<(JsonV, usize)> {
    match contract {
        Some(c) => Some((c.schema@, c.max_repairs)),
        None => None,
    }
}

/// What follows a completed run of the loop.
#[derive(Debug)]
pub enum LoopStep {
    /// The value stands, or the failure in its place.
    Done { event: Option<Json>, value: Json, machine: Machine },
    /// The output is asked for again by this machine.
    Again { event: Json, machine: Machine },
}

/// The model of a loop step.
pub enum LoopStepV {
    Done { event: Option<JsonV>, value: JsonV, machine: MachineV },
    Again { event: JsonV, machine: MachineV },
}

/// The model of an optional value.
pub open spec fn opt_json(v: Option<Json>) -> Option<JsonV> {
    match v {
        Some(x) => Some(x@),
        None => None,
    }
}

impl LoopStep {
    pub open spec fn view(&self) -> LoopStepV {
        match self {
            LoopStep::Done { event, value, machine } => LoopStepV::Done {
                event: opt_json(*event),
                value: value@,
                machine: machine@,
            },
            LoopStep::Again { event, machine } => LoopStepV::Again {
                event: event@,
                machine: machine@,
            },
        }
    }
}

/// The machine that asks again for an output.
pub open spec fn repaired(
    c: LoopShapeV,
    max_turns: usize,
    done: MachineV,
    content: Seq<char>,
    errors: Seq<Seq<char>>,
) -> MachineV {
    MachineV {
        visits: done.visits,
        ..loop_machine(c, mended(history_of(done), content, errors), max_turns)
    }
}

/// What follows a completed run of the loop: without a contract its value
/// stands; with one it is judged, and an output that does not fit is asked
/// for again as long as repairs are left.
pub open spec fn followed(run: LoopRunV, value: JsonV, done: MachineV) -> LoopStepV {
    match run.contract {
        None => LoopStepV::Done { event: None, value, machine: done },
        Some((schema, max_repairs)) => match judged(
            value,
            output_contract::text_violations(schema, response_text(value)),
            max_repairs,
            run.failed,
        ) {
            VerdictV::Accept => LoopStepV::Done { event: None, value, machine: done },
            VerdictV::GiveUp { event, value: failure } => LoopStepV::Done {
                event: Some(event),
                value: failure,
                machine: done,
            },
            VerdictV::Repair { event, content, errors } => LoopStepV::Again {
                event,
                machine: repaired(run.shape, run.max_turns, done, content, errors),
            },
        },
    }
}

impl LoopRun {
    pub open spec fn view(&self) -> LoopRunV {
        LoopRunV {
            shape: self.shape@,
            max_turns: self.max_turns,
            contract: opt_contract(self.contract),
            failed: self.failed,
        }
    }

    /// Prepares a run.  There is none where the blocks of the loop cannot be
    /// numbered, as there are too many tools.
    pub fn new(model: Model, max_turns: usize, options: AgentLoopOptions) -> (r: Option<LoopRun>)
        ensures
            match r {
                Some(run) => fits(run.shape@) && run@ == (LoopRunV {
                    shape: LoopShapeV {
                        model: model.0@,
                        memory_tools: options.memory_tools,
                        native_tools: op::texts(options.tool_names@),
                        shell_requires_approval: options.shell_requires_approval,
                    },
                    max_turns,
                    contract: opt_contract(options.output_contract),
                    failed: 0,
                }),
                None => 24 + 2 * options.tool_names@.len() > u32::MAX,
            },
    {
        if options.tool_names.len() > MOST_NATIVE_TOOLS {
            return None;
        }
        let shape = LoopShape {
            model: model.0,
            memory_tools: options.memory_tools,
            native_tools: options.tool_names,
            shell_requires_approval: options.shell_requires_approval,
        };
        Some(LoopRun { shape, max_turns, contract: options.output_contract, failed: 0 })
    }

    /// The machine that a run begins with, over a prompt and the visits of the
    /// session so far.
    pub fn begin(&self, prompt: &Prompt, effect_visits: Vec<(String, u64)>) -> (r: Machine)
        requires
            fits(self.shape@),
        ensures
            r@ == (MachineV {
                visits: table::entries(effect_visits@),
                ..loop_machine(
                    self@.shape,
                    codec::messages_json(op::messages(prompt@)),
                    self.max_turns,
                )
            }),
    {
        let mut machine = start_loop(&self.shape, encode_messages(prompt), self.max_turns);
        machine.effect_visits = effect_visits;
        machine
    }

    /// Says what follows a completed run of the loop.
    pub fn after(&mut self, value: Json, done: Machine) -> (r: LoopStep)
        requires
            fits(old(self).shape@),
            old(self).failed < usize::MAX,
        ensures
            r@ == followed(old(self)@, value@, done@),
            match r {
                LoopStep::Done { .. } => final(self)@ == old(self)@,
                LoopStep::Again { .. } => {
                    &&& final(self)@ == (LoopRunV {
                        failed: (old(self).failed + 1) as usize,
                        ..old(self)@
                    })
                    &&& old(self)@.contract matches Some(c) && final(self).failed <= c.1
                },
            },
    {
        let verdict = match &self.contract {
            None => Verdict::Accept,
            Some(c) => judge(&value, c, self.failed),
        };
        match verdict {
            Verdict::Accept => LoopStep::Done { event: None, value, machine: done },
            Verdict::GiveUp { event, value: failure } => LoopStep::Done {
                event: Some(event),
                value: failure,
                machine: done,
            },
            Verdict::Repair { event, content, errors } => {
                let machine = repair_machine(
                    &done,
                    content.as_str(),
                    &errors,
                    &self.shape,
                    self.max_turns,
                );
                self.failed = self.failed + 1;
                LoopStep::Again { event, machine }
            },
        }
    }
}

/// Repairs are bounded: an output that does not fit is asked for again at
/// most so many times, and then the failure is the value of the run.
pub proof fn repairs_are_bounded(
    value: JsonV,
    errors: Seq<Seq<char>>,
    max_repairs: usize,
    failed: usize,
)
    requires
        failed < usize::MAX,
    ensures
        judged(value, errors, max_repairs, failed) is Repair ==> failed < max_repairs,
        judged(value, errors, max_repairs, failed) matches VerdictV::GiveUp { value: v, .. }
            ==> output_contract::recognized(v) == Some(
            output_contract::OutputContractFailureV {
                attempts: (failed + 1) as usize,
                errors,
                content: response_text(value),
            },
        ),
        errors.len() == 0 ==> judged(value, errors, max_repairs, failed) is Accept,
        failed >= max_repairs && errors.len() > 0 && !exhausted(value) ==> judged(
            value,
            errors,
            max_repairs,
            failed,
        ) is GiveUp,
{
    output_contract::failure_round_trips(
        output_contract::OutputContractFailureV {
            attempts: (failed + 1) as usize,
            errors,
            content: response_text(value),
        },
    );
}

/// What a run records of its contract is what a replay is checked against.
pub proof fn recorded_contract_is_checked(
    x: replay::IndexV,
    schema: JsonV,
    max_repairs: usize,
    e: EventV,
)
    requires
        e matches EventV::Custom { name, data, .. } && name == "output_contract"@ && data
            == contract_record(schema, max_repairs),
    ensures
        replay::record(x, e) matches Ok(y) && y.trace.output_schema == Some(
            output_contract::hash_of(schema),
        ),
{
    reveal_strlit("max_repairs");
    reveal_strlit("schema_hash");
    reveal_with_fuel(json::lookup, 3);
    assert("max_repairs"@[0] != "schema_hash"@[0]);
    let f = contract_record(schema, max_repairs)->Object_0;
    assert(f.drop_first()[0] == f[1]);
}
} // verus!
