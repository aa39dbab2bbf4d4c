//! The agent IR: programs of basic blocks with parameters, over JSON values.
use crate::json::{Json, JsonV};
use crate::op;
use crate::op::{ChatMessage, ChatMessageV};
use vstd::prelude::*;

verus! {

/// A variable name.
#[derive(Debug)]
pub struct Var(pub String);

impl Clone for Var {
    fn clone(&self) -> (r: Self)
        ensures
            r.0@ == self.0@,
    {
        Var(self.0.clone())
    }
}

/// The label of a basic block.
#[derive(Debug, Clone, Copy, PartialEq, Eq, Structural)]
pub struct BlockId(pub u32);

/// What an effect does when it fails: end the run, or bind an error value.
#[derive(Debug, Clone, Copy, PartialEq, Eq, Structural)]
pub enum EffectErrorMode {
    Abort,
    Bind,
}

/// How a context source is read.
#[derive(Debug, Clone, Copy, PartialEq, Eq, Structural)]
pub enum SourceKind {
    Temporal,
    Semantic,
    Knowledge,
}

/// What a store does to its sink.
#[derive(Debug, Clone, Copy, PartialEq, Eq, Structural)]
pub enum StoreOp {
    Create,
    Update,
    Delete,
}

/// The kinds of effects.
#[derive(Debug, Clone, Copy, PartialEq, Eq, Structural)]
pub enum EffectKind {
    Infer,
    Eval,
    Retrieve,
    Store,
    Tool,
}

impl SourceKind {
    pub open spec fn text(self) -> Seq<char> {
        match self {
            SourceKind::Temporal => "Temporal"@,
            SourceKind::Semantic => "Semantic"@,
            SourceKind::Knowledge => "Knowledge"@,
        }
    }

    pub fn as_str(self) -> (r: &'static str)
        ensures
            r@ == self.text(),
    {
        match self {
            SourceKind::Temporal => "Temporal",
            SourceKind::Semantic => "Semantic",
            SourceKind::Knowledge => "Knowledge",
        }
    }
}

impl StoreOp {
    pub open spec fn text(self) -> Seq<char> {
        match self {
            StoreOp::Create => "create"@,
            StoreOp::Update => "update"@,
            StoreOp::Delete => "delete"@,
        }
    }

    pub fn name(self) -> (r: &'static str)
        ensures
            r@ == self.text(),
    {
        match self {
            StoreOp::Create => "create",
            StoreOp::Update => "update",
            StoreOp::Delete => "delete",
        }
    }
}

impl EffectKind {
    pub open spec fn text(self) -> Seq<char> {
        match self {
            EffectKind::Infer => "Infer"@,
            EffectKind::Eval => "Eval"@,
            EffectKind::Retrieve => "Retrieve"@,
            EffectKind::Store => "Store"@,
            EffectKind::Tool => "Tool"@,
        }
    }

    pub fn as_str(self) -> (r: &'static str)
        ensures
            r@ == self.text(),
    {
        match self {
            EffectKind::Infer => "Infer",
            EffectKind::Eval => "Eval",
            EffectKind::Retrieve => "Retrieve",
            EffectKind::Store => "Store",
            EffectKind::Tool => "Tool",
        }
    }
}

/// An expression over the variables of a machine.
#[derive(Debug)]
pub enum Expr {
    Value(Json),
    Var(Var),
    Field { base: Var, field: String },
    FieldOr { base: Var, field: String, default: Box<Expr> },
    StringOr { value: Box<Expr>, default: Box<Expr> },
    If { cond: Box<Expr>, then_value: Box<Expr>, else_value: Box<Expr> },
    Index { base: Var, index: Box<Expr> },
    Len { base: Var },
    IsEmpty { base: Var },
    Eq { left: Box<Expr>, right: Box<Expr> },
    Lt { left: Box<Expr>, right: Box<Expr> },
    Or { left: Box<Expr>, right: Box<Expr> },
    And { left: Box<Expr>, right: Box<Expr> },
    HasPendingToolCalls { base: Var },
    Add { left: Box<Expr>, right: Box<Expr> },
    Sub { left: Box<Expr>, right: Box<Expr> },
    Push { base: Var, value: Box<Expr> },
    JsonParse { value: Box<Expr> },
    JsonParseOr { value: Box<Expr>, default: Box<Expr> },
    ToString { value: Box<Expr> },
    Array(Vec<Expr>),
    Object(Vec<(String, Expr)>),
    Concat { left: Box<Expr>, right: Box<Expr> },
    SelectToolResults { history: Var, ids: Box<Expr> },
}

/// The model of an expression.
pub enum ExprV {
    Value(JsonV),
    Var(Seq<char>),
    Field { base: Seq<char>, field: Seq<char> },
    FieldOr { base: Seq<char>, field: Seq<char>, default: Box<ExprV> },
    StringOr { value: Box<ExprV>, default: Box<ExprV> },
    If { cond: Box<ExprV>, then_value: Box<ExprV>, else_value: Box<ExprV> },
    Index { base: Seq<char>, index: Box<ExprV> },
    Len { base: Seq<char> },
    IsEmpty { base: Seq<char> },
    Eq { left: Box<ExprV>, right: Box<ExprV> },
    Lt { left: Box<ExprV>, right: Box<ExprV> },
    Or { left: Box<ExprV>, right: Box<ExprV> },
    And { left: Box<ExprV>, right: Box<ExprV> },
    HasPendingToolCalls { base: Seq<char> },
    Add { left: Box<ExprV>, right: Box<ExprV> },
    Sub { left: Box<ExprV>, right: Box<ExprV> },
    Push { base: Seq<char>, value: Box<ExprV> },
    JsonParse { value: Box<ExprV> },
    JsonParseOr { value: Box<ExprV>, default: Box<ExprV> },
    ToString { value: Box<ExprV> },
    Array(Seq<ExprV>),
    Object(Seq<(Seq<char>, ExprV)>),
    Concat { left: Box<ExprV>, right: Box<ExprV> },
    SelectToolResults { history: Seq<char>, ids: Box<ExprV> },
}

impl Expr {
    pub open spec fn view(&self) -> ExprV
        decreases self,
    {
        match self {
            Expr::Value(x) => ExprV::Value(x@),
            Expr::Var(x) => ExprV::Var(x.0@),
            Expr::Field { base, field } => ExprV::Field { base: base.0@, field: field@ },
            Expr::FieldOr { base, field, default } => ExprV::FieldOr {
                base: base.0@,
                field: field@,
                default: Box::new(default.view()),
            },
            Expr::StringOr { value, default } => ExprV::StringOr {
                value: Box::new(value.view()),
                default: Box::new(default.view()),
            },
            Expr::If { cond, then_value, else_value } => ExprV::If {
                cond: Box::new(cond.view()),
                then_value: Box::new(then_value.view()),
                else_value: Box::new(else_value.view()),
            },
            Expr::Index { base, index } => ExprV::Index {
                base: base.0@,
                index: Box::new(index.view()),
            },
            Expr::Len { base } => ExprV::Len { base: base.0@ },
            Expr::IsEmpty { base } => ExprV::IsEmpty { base: base.0@ },
            Expr::Eq { left, right } => ExprV::Eq {
                left: Box::new(left.view()),
                right: Box::new(right.view()),
            },
            Expr::Lt { left, right } => ExprV::Lt {
                left: Box::new(left.view()),
                right: Box::new(right.view()),
            },
            Expr::Or { left, right } => ExprV::Or {
                left: Box::new(left.view()),
                right: Box::new(right.view()),
            },
            Expr::And { left, right } => ExprV::And {
                left: Box::new(left.view()),
                right: Box::new(right.view()),
            },
            Expr::HasPendingToolCalls { base } => ExprV::HasPendingToolCalls { base: base.0@ },
            Expr::Add { left, right } => ExprV::Add {
                left: Box::new(left.view()),
                right: Box::new(right.view()),
            },
            Expr::Sub { left, right } => ExprV::Sub {
                left: Box::new(left.view()),
                right: Box::new(right.view()),
            },
            Expr::Push { base, value } => ExprV::Push {
                base: base.0@,
                value: Box::new(value.view()),
            },
            Expr::JsonParse { value } => ExprV::JsonParse { value: Box::new(value.view()) },
            Expr::JsonParseOr { value, default } => ExprV::JsonParseOr {
                value: Box::new(value.view()),
                default: Box::new(default.view()),
            },
            Expr::ToString { value } => ExprV::ToString { value: Box::new(value.view()) },
            Expr::Array(x) => ExprV::Array(Seq::new(
                x@.len(),
                |i: int| if 0 <= i < x@.len() { x@[i].view() } else { arbitrary() },
            )),
            Expr::Object(x) => ExprV::Object(Seq::new(
                x@.len(),
                |i: int| (x@[i].0@, if 0 <= i < x@.len() { x@[i].1.view() } else { arbitrary() }),
            )),
            Expr::Concat { left, right } => ExprV::Concat {
                left: Box::new(left.view()),
                right: Box::new(right.view()),
            },
            Expr::SelectToolResults { history, ids } => ExprV::SelectToolResults {
                history: history.0@,
                ids: Box::new(ids.view()),
            },
        }
    }
}

/// The models of a list of expressions.
pub open spec fn exprs(list: Seq<Expr>) -> Seq<ExprV> {
    Seq::new(list.len(), |i: int| list[i]@)
}

/// The models of a list of named expressions.
pub open spec fn named_exprs(list: Seq<(String, Expr)>) -> Seq<(Seq<char>, ExprV)> {
    Seq::new(list.len(), |i: int| (list[i].0@, list[i].1@))
}

/// The models of a list of variables.
pub open spec fn var_names(list: Seq<Var>) -> Seq<Seq<char>> {
    Seq::new(list.len(), |i: int| list[i].0@)
}

/// The view of a list expression, by its elements.
pub proof fn expr_view_parts(e: Expr)
    ensures
        e@ == match e {
            Expr::Array(items) => ExprV::Array(exprs(items@)),
            Expr::Object(items) => ExprV::Object(named_exprs(items@)),
            _ => e@,
        },
{
    match e {
        Expr::Array(items) => {
            assert(e@->Array_0 =~= exprs(items@));
        },
        Expr::Object(items) => {
            assert(e@->Object_0 =~= named_exprs(items@));
        },
        _ => {},
    }
}

impl Clone for Expr {
    fn clone(&self) -> (r: Self)
        ensures
            r@ == self@,
        decreases self,
    {
        match self {
            Expr::Value(x) => Expr::Value(x.clone()),
            Expr::Var(x) => Expr::Var(x.clone()),
            Expr::Field { base, field } => Expr::Field { base: base.clone(), field: field.clone() },
            Expr::FieldOr { base, field, default } => Expr::FieldOr {
                base: base.clone(),
                field: field.clone(),
                default: Box::new((**default).clone()),
            },
            Expr::StringOr { value, default } => Expr::StringOr {
                value: Box::new((**value).clone()),
                default: Box::new((**default).clone()),
            },
            Expr::If { cond, then_value, else_value } => Expr::If {
                cond: Box::new((**cond).clone()),
                then_value: Box::new((**then_value).clone()),
                else_value: Box::new((**else_value).clone()),
            },
            Expr::Index { base, index } => Expr::Index {
                base: base.clone(),
                index: Box::new((**index).clone()),
            },
            Expr::Len { base } => Expr::Len { base: base.clone() },
            Expr::IsEmpty { base } => Expr::IsEmpty { base: base.clone() },
            Expr::Eq { left, right } => Expr::Eq {
                left: Box::new((**left).clone()),
                right: Box::new((**right).clone()),
            },
            Expr::Lt { left, right } => Expr::Lt {
                left: Box::new((**left).clone()),
                right: Box::new((**right).clone()),
            },
            Expr::Or { left, right } => Expr::Or {
                left: Box::new((**left).clone()),
                right: Box::new((**right).clone()),
            },
            Expr::And { left, right } => Expr::And {
                left: Box::new((**left).clone()),
                right: Box::new((**right).clone()),
            },
            Expr::HasPendingToolCalls { base } => Expr::HasPendingToolCalls { base: base.clone() },
            Expr::Add { left, right } => Expr::Add {
                left: Box::new((**left).clone()),
                right: Box::new((**right).clone()),
            },
            Expr::Sub { left, right } => Expr::Sub {
                left: Box::new((**left).clone()),
                right: Box::new((**right).clone()),
            },
            Expr::Push { base, value } => Expr::Push {
                base: base.clone(),
                value: Box::new((**value).clone()),
            },
            Expr::JsonParse { value } => Expr::JsonParse { value: Box::new((**value).clone()) },
            Expr::JsonParseOr { value, default } => Expr::JsonParseOr {
                value: Box::new((**value).clone()),
                default: Box::new((**default).clone()),
            },
            Expr::ToString { value } => Expr::ToString { value: Box::new((**value).clone()) },
            Expr::Array(x) => {
                let mut out: Vec<Expr> = Vec::new();
                let mut i: usize = 0;
                while i < x.len()
                    invariant
                        i <= x@.len(),
                        decreases_to!(self => x@),
                        out@.len() == i,
                        forall|j: int| 0 <= j < i ==> (#[trigger] out@[j])@ == x@[j]@,
                    decreases x@.len() - i,
                {
                    out.push(x[i].clone());
                    i += 1;
                }
                assert(exprs(out@) =~= exprs(x@));
                let r = Expr::Array(out);
                proof {
                    expr_view_parts(*self);
                    expr_view_parts(r);
                }
                r
            },
            Expr::Object(x) => {
                let mut out: Vec<(String, Expr)> = Vec::new();
                let mut i: usize = 0;
                while i < x.len()
                    invariant
                        i <= x@.len(),
                        decreases_to!(self => x@),
                        out@.len() == i,
                        forall|j: int|
                            0 <= j < i ==> (#[trigger] out@[j]).0@ == x@[j].0@ && out@[j].1@ == x@[j].1@,
                    decreases x@.len() - i,
                {
                    out.push((x[i].0.clone(), x[i].1.clone()));
                    i += 1;
                }
                assert(named_exprs(out@) =~= named_exprs(x@));
                let r = Expr::Object(out);
                proof {
                    expr_view_parts(*self);
                    expr_view_parts(r);
                }
                r
            },
            Expr::Concat { left, right } => Expr::Concat {
                left: Box::new((**left).clone()),
                right: Box::new((**right).clone()),
            },
            Expr::SelectToolResults { history, ids } => Expr::SelectToolResults {
                history: history.clone(),
                ids: Box::new((**ids).clone()),
            },
        }
    }
}

/// A copy of a list of expressions.
pub fn copy_exprs(list: &Vec<Expr>) -> (r: Vec<Expr>)
    ensures
        exprs(r@) == exprs(list@),
{
    let mut out: Vec<Expr> = Vec::new();
    let mut i: usize = 0;
    while i < list.len()
        invariant
            i <= list@.len(),
            out@.len() == i,
            forall|j: int| 0 <= j < i ==> (#[trigger] out@[j])@ == list@[j]@,
        decreases list@.len() - i,
    {
        out.push(list[i].clone());
        i += 1;
    }
    assert(exprs(out@) =~= exprs(list@));
    out
}

/// A copy of a list of variables.
pub fn copy_vars(list: &Vec<Var>) -> (r: Vec<Var>)
    ensures
        var_names(r@) == var_names(list@),
{
    let mut out: Vec<Var> = Vec::new();
    let mut i: usize = 0;
    while i < list.len()
        invariant
            i <= list@.len(),
            out@.len() == i,
            forall|j: int| 0 <= j < i ==> (#[trigger] out@[j]).0@ == list@[j].0@,
        decreases list@.len() - i,
    {
        out.push(list[i].clone());
        i += 1;
    }
    assert(var_names(out@) =~= var_names(list@));
    out
}

/// Where an inference takes its prompt from.  A structured prompt is held as
/// the JSON document that describes it.
#[derive(Debug)]
pub enum PromptRef {
    Inline(Vec<ChatMessage>),
    Var(Var),
    PromptIr(Json),
    PromptIrVar(Var),
}

/// The model of a prompt reference.
pub enum PromptRefV {
    Inline(Seq<ChatMessageV>),
    Var(Seq<char>),
    PromptIr(JsonV),
    PromptIrVar(Seq<char>),
}

impl PromptRef {
    pub open spec fn view(&self) -> PromptRefV {
        match self {
            PromptRef::Inline(m) => PromptRefV::Inline(op::messages(m@)),
            PromptRef::Var(v) => PromptRefV::Var(v.0@),
            PromptRef::PromptIr(d) => PromptRefV::PromptIr(d@),
            PromptRef::PromptIrVar(v) => PromptRefV::PromptIrVar(v.0@),
        }
    }
}

impl Clone for PromptRef {
    fn clone(&self) -> (r: Self)
        ensures
            r@ == self@,
    {
        match self {
            PromptRef::Inline(m) => {
                let copy = op::copy_messages(m, m.len());
                assert(op::messages(m@).take(m@.len() as int) =~= op::messages(m@));
                PromptRef::Inline(copy)
            },
            PromptRef::Var(v) => PromptRef::Var(v.clone()),
            PromptRef::PromptIr(d) => PromptRef::PromptIr(d.clone()),
            PromptRef::PromptIrVar(v) => PromptRef::PromptIrVar(v.clone()),
        }
    }
}

/// What an evaluation runs.
#[derive(Debug)]
pub enum EvalRequest {
    Shell { command: Expr },
    Argv { argv: Vec<Expr> },
}

/// The model of an evaluation request.
pub enum EvalRequestV {
    Shell { command: ExprV },
    Argv { argv: Seq<ExprV> },
}

impl EvalRequest {
    pub open spec fn view(&self) -> EvalRequestV {
        match self {
            EvalRequest::Shell { command } => EvalRequestV::Shell { command: command@ },
            EvalRequest::Argv { argv } => EvalRequestV::Argv { argv: exprs(argv@) },
        }
    }
}

impl Clone for EvalRequest {
    fn clone(&self) -> (r: Self)
        ensures
            r@ == self@,
    {
        match self {
            EvalRequest::Shell { command } => EvalRequest::Shell { command: command.clone() },
            EvalRequest::Argv { argv } => EvalRequest::Argv { argv: copy_exprs(argv) },
        }
    }
}

/// One instruction of a block.
#[derive(Debug)]
pub enum Instr {
    Let { out: Var, expr: Expr },
    /// `tools` narrows the tool offer to the listed names.
    Infer {
        out: Var,
        model: Expr,
        prompt: PromptRef,
        on_error: EffectErrorMode,
        tools: Option<Vec<String>>,
    },
    Eval { out: Var, request: EvalRequest, require_approval: bool },
    Emit { event: Expr },
    Retrieve {
        out: Var,
        query: Expr,
        kind: Option<SourceKind>,
        max_bytes: Option<usize>,
        on_error: EffectErrorMode,
    },
    Store {
        out: Var,
        sink: Expr,
        op: StoreOp,
        id: Option<Expr>,
        item: Expr,
        on_error: EffectErrorMode,
    },
    Tool { out: Var, name: String, arguments: Expr, on_error: EffectErrorMode },
}

/// The model of an instruction.
pub enum InstrV {
    Let { out: Seq<char>, expr: ExprV },
    Infer {
        out: Seq<char>,
        model: ExprV,
        prompt: PromptRefV,
        on_error: EffectErrorMode,
        tools: Option<Seq<Seq<char>>>,
    },
    Eval { out: Seq<char>, request: EvalRequestV, require_approval: bool },
    Emit { event: ExprV },
    Retrieve {
        out: Seq<char>,
        query: ExprV,
        kind: Option<SourceKind>,
        max_bytes: Option<usize>,
        on_error: EffectErrorMode,
    },
    Store {
        out: Seq<char>,
        sink: ExprV,
        op: StoreOp,
        id: Option<ExprV>,
        item: ExprV,
        on_error: EffectErrorMode,
    },
    Tool { out: Seq<char>, name: Seq<char>, arguments: ExprV, on_error: EffectErrorMode },
}

/// The model of an optional expression.
pub open spec fn opt_expr(e: Option<Expr>) -> Option<ExprV> {
    match e {
        Some(x) => Some(x@),
        None => None,
    }
}

/// The model of an optional list of texts.
pub open spec fn opt_texts(l: Option<Vec<String>>) -> Option<Seq<Seq<char>>> {
    match l {
        Some(x) => Some(op::texts(x@)),
        None => None,
    }
}

impl Instr {
    pub open spec fn view(&self) -> InstrV {
        match self {
            Instr::Let { out, expr } => InstrV::Let { out: out.0@, expr: expr@ },
            Instr::Infer { out, model, prompt, on_error, tools } => InstrV::Infer {
                out: out.0@,
                model: model@,
                prompt: prompt@,
                on_error: *on_error,
                tools: opt_texts(*tools),
            },
            Instr::Eval { out, request, require_approval } => InstrV::Eval {
                out: out.0@,
                request: request@,
                require_approval: *require_approval,
            },
            Instr::Emit { event } => InstrV::Emit { event: event@ },
            Instr::Retrieve { out, query, kind, max_bytes, on_error } => InstrV::Retrieve {
                out: out.0@,
                query: query@,
                kind: *kind,
                max_bytes: *max_bytes,
                on_error: *on_error,
            },
            Instr::Store { out, sink, op, id, item, on_error } => InstrV::Store {
                out: out.0@,
                sink: sink@,
                op: *op,
                id: opt_expr(*id),
                item: item@,
                on_error: *on_error,
            },
            Instr::Tool { out, name, arguments, on_error } => InstrV::Tool {
                out: out.0@,
                name: name@,
                arguments: arguments@,
                on_error: *on_error,
            },
        }
    }
}

/// A copy of a list of strings.
pub fn copy_strings(list: &Vec<String>) -> (r: Vec<String>)
    ensures
        op::texts(r@) == op::texts(list@),
{
    let mut out: Vec<String> = Vec::new();
    let mut i: usize = 0;
    while i < list.len()
        invariant
            i <= list@.len(),
            out@.len() == i,
            forall|j: int| 0 <= j < i ==> (#[trigger] out@[j])@ == list@[j]@,
        decreases list@.len() - i,
    {
        out.push(list[i].clone());
        i += 1;
    }
    assert(op::texts(out@) =~= op::texts(list@));
    out
}

impl Clone for Instr {
    fn clone(&self) -> (r: Self)
        ensures
            r@ == self@,
    {
        match self {
            Instr::Let { out, expr } => Instr::Let { out: out.clone(), expr: expr.clone() },
            Instr::Infer { out, model, prompt, on_error, tools } => Instr::Infer {
                out: out.clone(),
                model: model.clone(),
                prompt: prompt.clone(),
                on_error: *on_error,
                tools: match tools {
                    Some(names) => Some(copy_strings(names)),
                    None => None,
                },
            },
            Instr::Eval { out, request, require_approval } => Instr::Eval {
                out: out.clone(),
                request: request.clone(),
                require_approval: *require_approval,
            },
            Instr::Emit { event } => Instr::Emit { event: event.clone() },
            Instr::Retrieve { out, query, kind, max_bytes, on_error } => Instr::Retrieve {
                out: out.clone(),
                query: query.clone(),
                kind: *kind,
                max_bytes: *max_bytes,
                on_error: *on_error,
            },
            Instr::Store { out, sink, op, id, item, on_error } => Instr::Store {
                out: out.clone(),
                sink: sink.clone(),
                op: *op,
                id: match id {
                    Some(e) => Some(e.clone()),
                    None => None,
                },
                item: item.clone(),
                on_error: *on_error,
            },
            Instr::Tool { out, name, arguments, on_error } => Instr::Tool {
                out: out.clone(),
                name: name.clone(),
                arguments: arguments.clone(),
                on_error: *on_error,
            },
        }
    }
}

/// What a match arm accepts.
#[derive(Debug)]
pub enum Pattern {
    Null,
    Bool(bool),
    Text(String),
    Number(Json),
    ObjectField { field: String, pattern: Box<Pattern> },
    Any,
}

/// The model of a pattern.
pub enum PatternV {
    Null,
    Bool(bool),
    Text(Seq<char>),
    Number(JsonV),
    ObjectField { field: Seq<char>, pattern: Box<PatternV> },
    Any,
}

impl Pattern {
    pub open spec fn view(&self) -> PatternV
        decreases self,
    {
        match self {
            Pattern::Null => PatternV::Null,
            Pattern::Bool(b) => PatternV::Bool(*b),
            Pattern::Text(s) => PatternV::Text(s@),
            Pattern::Number(n) => PatternV::Number(n@),
            Pattern::ObjectField { field, pattern } => PatternV::ObjectField {
                field: field@,
                pattern: Box::new(pattern.view()),
            },
            Pattern::Any => PatternV::Any,
        }
    }
}

impl Clone for Pattern {
    fn clone(&self) -> (r: Self)
        ensures
            r@ == self@,
        decreases self,
    {
        match self {
            Pattern::Null => Pattern::Null,
            Pattern::Bool(b) => Pattern::Bool(*b),
            Pattern::Text(s) => Pattern::Text(s.clone()),
            Pattern::Number(n) => Pattern::Number(n.clone()),
            Pattern::ObjectField { field, pattern } => Pattern::ObjectField {
                field: field.clone(),
                pattern: Box::new((**pattern).clone()),
            },
            Pattern::Any => Pattern::Any,
        }
    }
}

/// One arm of a match.
#[derive(Debug)]
pub struct MatchArm {
    pub pattern: Pattern,
    pub block: BlockId,
    pub args: Vec<Expr>,
}

/// The model of an arm.
pub struct MatchArmV {
    pub pattern: PatternV,
    pub block: u32,
    pub args: Seq<ExprV>,
}

impl MatchArm {
    pub open spec fn view(&self) -> MatchArmV {
        MatchArmV { pattern: self.pattern@, block: self.block.0, args: exprs(self.args@) }
    }
}

/// The models of a list of arms.
pub open spec fn match_arms(list: Seq<MatchArm>) -> Seq<MatchArmV> {
    Seq::new(list.len(), |i: int| list[i]@)
}

/// How a block ends.
#[derive(Debug)]
pub enum Terminator {
    Goto { block: BlockId, args: Vec<Expr> },
    If {
        cond: Expr,
        then_block: BlockId,
        then_args: Vec<Expr>,
        else_block: BlockId,
        else_args: Vec<Expr>,
    },
    Match {
        value: Expr,
        arms: Vec<MatchArm>,
        default: Option<BlockId>,
        default_args: Vec<Expr>,
    },
    Return { value: Expr },
    Par { branches: Vec<BlockId>, join: BlockId },
}

/// The model of a terminator.
pub enum TerminatorV {
    Goto { block: u32, args: Seq<ExprV> },
    If {
        cond: ExprV,
        then_block: u32,
        then_args: Seq<ExprV>,
        else_block: u32,
        else_args: Seq<ExprV>,
    },
    Match {
        value: ExprV,
        arms: Seq<MatchArmV>,
        default: Option<u32>,
        default_args: Seq<ExprV>,
    },
    Return { value: ExprV },
    Par { branches: Seq<u32>, join: u32 },
}

/// The labels of a list of blocks.
pub open spec fn labels(list: Seq<BlockId>) -> Seq<u32> {
    Seq::new(list.len(), |i: int| list[i].0)
}

/// The label of an optional block.
pub open spec fn opt_label(b: Option<BlockId>) -> Option<u32> {
    match b {
        Some(x) => Some(x.0),
        None => None,
    }
}

impl Terminator {
    pub open spec fn view(&self) -> TerminatorV {
        match self {
            Terminator::Goto { block, args } => TerminatorV::Goto {
                block: block.0,
                args: exprs(args@),
            },
            Terminator::If {
                cond,
                then_block,
                then_args,
                else_block,
                else_args,
            } => TerminatorV::If {
                cond: cond@,
                then_block: then_block.0,
                then_args: exprs(then_args@),
                else_block: else_block.0,
                else_args: exprs(else_args@),
            },
            Terminator::Match { value, arms, default, default_args } => TerminatorV::Match {
                value: value@,
                arms: match_arms(arms@),
                default: opt_label(*default),
                default_args: exprs(default_args@),
            },
            Terminator::Return { value } => TerminatorV::Return { value: value@ },
            Terminator::Par { branches, join } => TerminatorV::Par {
                branches: labels(branches@),
                join: join.0,
            },
        }
    }
}

/// A basic block: parameters, instructions and a terminator.
#[derive(Debug)]
pub struct Block {
    pub params: Vec<Var>,
    pub instructions: Vec<Instr>,
    pub terminator: Terminator,
}

/// The model of a block.
pub struct BlockV {
    pub params: Seq<Seq<char>>,
    pub instructions: Seq<InstrV>,
    pub terminator: TerminatorV,
}

/// The models of a list of instructions.
pub open spec fn instrs(list: Seq<Instr>) -> Seq<InstrV> {
    Seq::new(list.len(), |i: int| list[i]@)
}

impl Block {
    pub open spec fn view(&self) -> BlockV {
        BlockV {
            params: var_names(self.params@),
            instructions: instrs(self.instructions@),
            terminator: self.terminator@,
        }
    }
}

/// A copy of a list of instructions.
pub fn copy_instrs(list: &Vec<Instr>) -> (r: Vec<Instr>)
    ensures
        instrs(r@) == instrs(list@),
{
    let mut out: Vec<Instr> = Vec::new();
    let mut i: usize = 0;
    while i < list.len()
        invariant
            i <= list@.len(),
            out@.len() == i,
            forall|j: int| 0 <= j < i ==> (#[trigger] out@[j])@ == list@[j]@,
        decreases list@.len() - i,
    {
        out.push(list[i].clone());
        i += 1;
    }
    assert(instrs(out@) =~= instrs(list@));
    out
}

/// A program: labelled blocks and the label of the first one to run.
#[derive(Debug)]
pub struct Program {
    pub id: String,
    pub entry: BlockId,
    /// The table of blocks, listed in any order.  Under a label that is listed
    /// again stands the block that is listed first.
    pub blocks: Vec<(BlockId, Block)>,
}

/// The labelled blocks of a program, as a model.
pub type Blocks = Seq<(u32, BlockV)>;

/// The model of a program.
pub struct ProgramV {
    pub id: Seq<char>,
    pub entry: u32,
    pub blocks: Blocks,
}

/// The models of a list of labelled blocks.
pub open spec fn labelled(list: Seq<(BlockId, Block)>) -> Blocks {
    Seq::new(list.len(), |i: int| (list[i].0.0, list[i].1@))
}

impl Program {
    pub open spec fn view(&self) -> ProgramV {
        ProgramV { id: self.id@, entry: self.entry.0, blocks: labelled(self.blocks@) }
    }
}

/// The block labelled `id`.
pub open spec fn block_at(blocks: Blocks, id: u32) -> Option<BlockV>
    decreases blocks.len(),
{
    if blocks.len() == 0 {
        None
    } else if blocks[0].0 == id {
        Some(blocks[0].1)
    } else {
        block_at(blocks.drop_first(), id)
    }
}

/// A block that is found stands under its label.
pub proof fn block_at_found(blocks: Blocks, id: u32)
    ensures
        block_at(blocks, id) is Some <==> exists|i: int|
            0 <= i < blocks.len() && (#[trigger] blocks[i]).0 == id,
        block_at(blocks, id) is Some ==> exists|i: int|
            0 <= i < blocks.len() && (#[trigger] blocks[i]) == (id, block_at(blocks, id)->0),
    decreases blocks.len(),
{
    if blocks.len() > 0 {
        let rest = blocks.drop_first();
        block_at_found(rest, id);
        if blocks[0].0 == id {
            assert(blocks[0] == (id, block_at(blocks, id)->0));
        } else {
            assert(forall|i: int| 0 <= i < rest.len() ==> rest[i] == blocks[i + 1]);
            if block_at(blocks, id) is Some {
                let k = choose|k: int|
                    0 <= k < rest.len() && (#[trigger] rest[k]) == (id, block_at(rest, id)->0);
                assert(blocks[k + 1] == (id, block_at(blocks, id)->0));
            }
            if exists|i: int| 0 <= i < blocks.len() && (#[trigger] blocks[i]).0 == id {
                let k = choose|k: int| 0 <= k < blocks.len() && (#[trigger] blocks[k]).0 == id;
                assert(rest[k - 1].0 == id);
            }
        }
    }
}

/// Whether labels ascend, none of them twice.
pub open spec fn ascending(blocks: Blocks) -> bool {
    forall|i: int, j: int|
        0 <= i < j < blocks.len() ==> (#[trigger] blocks[i]).0 < (#[trigger] blocks[j]).0
}

/// A table in the order of its labels with one more block, unless its label is
/// taken.
pub open spec fn filed(table: Blocks, b: (u32, BlockV)) -> Blocks
    decreases table.len(),
{
    if table.len() == 0 {
        seq![b]
    } else if b.0 < table[0].0 {
        seq![b] + table
    } else if b.0 == table[0].0 {
        table
    } else {
        seq![table[0]] + filed(table.drop_first(), b)
    }
}

/// A table in the order of its labels.
pub open spec fn by_label(blocks: Blocks) -> Blocks
    decreases blocks.len(),
{
    if blocks.len() == 0 {
        blocks
    } else {
        filed(by_label(blocks.drop_last()), blocks.last())
    }
}

/// Where a block is filed.
proof fn filed_at(table: Blocks, b: (u32, BlockV), i: int)
    requires
        0 <= i <= table.len(),
        forall|j: int| 0 <= j < i ==> (#[trigger] table[j]).0 < b.0,
        i < table.len() ==> b.0 <= table[i].0,
    ensures
        filed(table, b) == if i < table.len() && table[i].0 == b.0 {
            table
        } else {
            table.insert(i, b)
        },
    decreases i,
{
    if i == 0 {
        if table.len() == 0 {
            assert(table.insert(0, b) =~= seq![b]);
        } else if b.0 < table[0].0 {
            assert(table.insert(0, b) =~= seq![b] + table);
        }
    } else {
        let rest = table.drop_first();
        assert forall|j: int| 0 <= j < i - 1 implies (#[trigger] rest[j]).0 < b.0 by {
            assert(rest[j] == table[j + 1]);
        }
        filed_at(rest, b, i - 1);
        assert(table =~= seq![table[0]] + rest);
        assert(table.insert(i, b) =~= seq![table[0]] + rest.insert(i - 1, b));
    }
}

/// No block stands under a label before the first of an ascending table.
proof fn nothing_before(table: Blocks, id: u32)
    requires
        ascending(table),
        table.len() > 0 ==> id < table[0].0,
    ensures
        block_at(table, id) is None,
{
    block_at_found(table, id);
    if block_at(table, id) is Some {
        let k = choose|k: int| 0 <= k < table.len() && (#[trigger] table[k]).0 == id;
        assert(table[0].0 <= table[k].0);
    }
}

proof fn filing_adds(table: Blocks, b: (u32, BlockV))
    requires
        ascending(table),
    ensures
        ascending(filed(table, b)),
        forall|id: u32| #[trigger]
            block_at(filed(table, b), id) == if id == b.0 && block_at(table, id) is None {
                Some(b.1)
            } else {
                block_at(table, id)
            },
        forall|j: int|
            0 <= j < filed(table, b).len() ==> (#[trigger] filed(table, b)[j]).0 >= b.0
                || table.len() > 0 && filed(table, b)[j].0 >= table[0].0,
    decreases table.len(),
{
    let t = filed(table, b);
    if table.len() == 0 {
        assert(t.drop_first() =~= Seq::empty());
    } else if b.0 < table[0].0 {
        assert(t.drop_first() =~= table);
        nothing_before(table, b.0);
    } else if b.0 > table[0].0 {
        let rest = table.drop_first();
        assert(ascending(rest)) by {
            assert forall|i: int, j: int| 0 <= i < j < rest.len() implies (#[trigger] rest[i]).0 < (
            #[trigger] rest[j]).0 by {
                assert(table[i + 1].0 < table[j + 1].0);
            }
        }
        filing_adds(rest, b);
        let u = filed(rest, b);
        assert(t.drop_first() =~= u);
        assert forall|i: int, j: int| 0 <= i < j < t.len() implies (#[trigger] t[i]).0 < (
        #[trigger] t[j]).0 by {
            assert(t[j] == u[j - 1]);
            if i == 0 {
                if rest.len() > 0 {
                    assert(table[0].0 < table[1].0);
                }
            } else {
                assert(t[i] == u[i - 1]);
            }
        }
    }
}

proof fn found_in_front(blocks: Blocks, id: u32)
    requires
        blocks.len() > 0,
    ensures
        block_at(blocks, id) == match block_at(blocks.drop_last(), id) {
            Some(b) => Some(b),
            None => if blocks.last().0 == id {
                Some(blocks.last().1)
            } else {
                None
            },
        },
    decreases blocks.len(),
{
    let front = blocks.drop_last();
    if blocks.len() == 1 {
        assert(blocks.drop_first() =~= Seq::empty());
    } else {
        assert(front.drop_first() =~= blocks.drop_first().drop_last());
        found_in_front(blocks.drop_first(), id);
    }
}

/// In the order of its labels a table holds the same blocks under the same
/// labels.
pub proof fn order_keeps_the_table(blocks: Blocks)
    ensures
        ascending(by_label(blocks)),
        forall|id: u32| #[trigger] block_at(by_label(blocks), id) == block_at(blocks, id),
    decreases blocks.len(),
{
    if blocks.len() > 0 {
        let front = blocks.drop_last();
        order_keeps_the_table(front);
        filing_adds(by_label(front), blocks.last());
        assert forall|id: u32| #[trigger] block_at(by_label(blocks), id) == block_at(blocks, id) by {
            found_in_front(blocks, id);
            assert(block_at(by_label(front), id) == block_at(front, id));
        }
    }
}

/// Two ascending tables with the same blocks under the same labels are equal.
pub proof fn tables_are_equal(a: Blocks, b: Blocks)
    requires
        ascending(a),
        ascending(b),
        forall|id: u32| #[trigger] block_at(a, id) == block_at(b, id),
    ensures
        a == b,
    decreases a.len(),
{
    if a.len() == 0 {
        if b.len() > 0 {
            assert(block_at(a, b[0].0) == block_at(b, b[0].0));
        }
        assert(a =~= b);
    } else {
        assert(block_at(a, a[0].0) == block_at(b, a[0].0));
        if b.len() == 0 {
            assert(false);
        }
        assert(block_at(a, b[0].0) == block_at(b, b[0].0));
        if a[0].0 < b[0].0 {
            nothing_before(b, a[0].0);
        }
        if b[0].0 < a[0].0 {
            nothing_before(a, b[0].0);
        }
        let s = a.drop_first();
        let t = b.drop_first();
        assert forall|i: int, j: int| 0 <= i < j < s.len() implies (#[trigger] s[i]).0 < (
        #[trigger] s[j]).0 by {
            assert(a[i + 1].0 < a[j + 1].0);
        }
        assert forall|i: int, j: int| 0 <= i < j < t.len() implies (#[trigger] t[i]).0 < (
        #[trigger] t[j]).0 by {
            assert(b[i + 1].0 < b[j + 1].0);
        }
        assert forall|id: u32| #[trigger] block_at(s, id) == block_at(t, id) by {
            assert(block_at(a, id) == block_at(b, id));
            if id == a[0].0 {
                if s.len() > 0 {
                    assert(a[0].0 < a[1].0);
                }
                if t.len() > 0 {
                    assert(b[0].0 < b[1].0);
                }
                nothing_before(s, id);
                nothing_before(t, id);
            }
        }
        tables_are_equal(s, t);
        assert(a =~= seq![a[0]] + s);
        assert(b =~= seq![b[0]] + t);
    }
}

/// Some blocks of a list, by their places in it.
pub open spec fn picked(blocks: Blocks, places: Seq<usize>) -> Blocks {
    Seq::new(places.len(), |k: int| blocks[places[k] as int])
}

impl Program {
    /// The places of the blocks in the order of their labels.
    pub fn label_order(&self) -> (r: Vec<usize>)
        ensures
            forall|k: int| 0 <= k < r@.len() ==> (#[trigger] r@[k]) < self.blocks@.len(),
            picked(self@.blocks, r@) == by_label(self@.blocks),
    {
        let ghost all = self@.blocks;
        let mut out: Vec<usize> = Vec::new();
        let mut i: usize = 0;
        assert(picked(all, out@) =~= by_label(all.take(0)));
        while i < self.blocks.len()
            invariant
                i <= self.blocks@.len(),
                all == self@.blocks,
                forall|k: int| 0 <= k < out@.len() ==> (#[trigger] out@[k]) < i,
                picked(all, out@) == by_label(all.take(i as int)),
            decreases self.blocks@.len() - i,
        {
            let label = self.blocks[i].0.0;
            let ghost table = picked(all, out@);
            let ghost b = all[i as int];
            let mut k: usize = 0;
            while k < out.len() && self.blocks[out[k]].0.0 < label
                invariant
                    k <= out@.len(),
                    i < self.blocks@.len(),
                    all == self@.blocks,
                    table == picked(all, out@),
                    forall|k: int| 0 <= k < out@.len() ==> (#[trigger] out@[k]) < i,
                    forall|j: int| 0 <= j < k ==> (#[trigger] table[j]).0 < label,
                decreases out@.len() - k,
            {
                k += 1;
            }
            proof {
                filed_at(table, b, k as int);
                assert(all.take(i + 1).drop_last() =~= all.take(i as int));
            }
            if k == out.len() || self.blocks[out[k]].0.0 != label {
                let ghost before = out@;
                out.insert(k, i);
                assert(picked(all, out@) =~= table.insert(k as int, b));
            }
            i += 1;
        }
        assert(all.take(i as int) =~= all);
        out
    }

    /// The block labelled `id`.
    pub fn block(&self, id: BlockId) -> (r: Option<&Block>)
        ensures
            match r {
                Some(b) => block_at(self@.blocks, id.0) == Some(b@),
                None => block_at(self@.blocks, id.0) is None,
            },
    {
        let mut i: usize = 0;
        let ghost all = labelled(self.blocks@);
        assert(all.skip(0) =~= all);
        while i < self.blocks.len()
            invariant
                i <= self.blocks@.len(),
                all == labelled(self.blocks@),
                block_at(all, id.0) == block_at(all.skip(i as int), id.0),
            decreases self.blocks@.len() - i,
        {
            if self.blocks[i].0.0 == id.0 {
                return Some(&self.blocks[i].1);
            }
            assert(all.skip(i as int).drop_first() =~= all.skip(i + 1));
            i += 1;
        }
        None
    }
}

} // verus!
