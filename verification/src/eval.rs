//! Evaluation of IR expressions and matching of patterns.
use crate::codec::add_field;
use crate::ir;
use crate::ir::{Expr, ExprV, Pattern, PatternV};
use crate::json;
use crate::json::{copy_values, get_field, object_of, put_field, same_json, Fields, Json, JsonV};
use crate::op;
use crate::text;
use crate::text::{debug_quoted, decimal_int_of, same_text};
use vstd::prelude::*;

verus! {

/// Why an expression has no value.
#[derive(Debug)]
pub enum EvalError {
    UnknownVar(String),
    FieldNotFound { field: String, value: Json },
    IndexNotFound { index: usize, value: Json },
    NotSized { label: String, value: Json },
    NotBool { label: String, value: Json },
    NotString { label: String, value: Json },
    NotNumber { label: String, value: Json },
    NotI64 { label: String, value: Json },
    Negative { label: String, number: i64 },
    NotArray { label: String, value: Json },
    NotTwoArrays { left: Json, right: Json },
    /// A sum or difference outside the range of `i64`.
    OutOfRange { label: String },
    /// The parser's message.
    NotJson(String),
}

/// The model of an evaluation error.
pub enum EvalErrorV {
    UnknownVar(Seq<char>),
    FieldNotFound { field: Seq<char>, value: JsonV },
    IndexNotFound { index: int, value: JsonV },
    NotSized { label: Seq<char>, value: JsonV },
    NotBool { label: Seq<char>, value: JsonV },
    NotString { label: Seq<char>, value: JsonV },
    NotNumber { label: Seq<char>, value: JsonV },
    NotI64 { label: Seq<char>, value: JsonV },
    Negative { label: Seq<char>, number: int },
    NotArray { label: Seq<char>, value: JsonV },
    NotTwoArrays { left: JsonV, right: JsonV },
    OutOfRange { label: Seq<char> },
    NotJson(Seq<char>),
}

impl EvalError {
    pub open spec fn view(&self) -> EvalErrorV {
        match self {
            EvalError::UnknownVar(v) => EvalErrorV::UnknownVar(v@),
            EvalError::FieldNotFound { field, value } => EvalErrorV::FieldNotFound {
                field: field@,
                value: value@,
            },
            EvalError::IndexNotFound { index, value } => EvalErrorV::IndexNotFound {
                index: *index as int,
                value: value@,
            },
            EvalError::NotSized { label, value } => EvalErrorV::NotSized {
                label: label@,
                value: value@,
            },
            EvalError::NotBool { label, value } => EvalErrorV::NotBool {
                label: label@,
                value: value@,
            },
            EvalError::NotString { label, value } => EvalErrorV::NotString {
                label: label@,
                value: value@,
            },
            EvalError::NotNumber { label, value } => EvalErrorV::NotNumber {
                label: label@,
                value: value@,
            },
            EvalError::NotI64 { label, value } => EvalErrorV::NotI64 {
                label: label@,
                value: value@,
            },
            EvalError::Negative { label, number } => EvalErrorV::Negative {
                label: label@,
                number: *number as int,
            },
            EvalError::NotArray { label, value } => EvalErrorV::NotArray {
                label: label@,
                value: value@,
            },
            EvalError::NotTwoArrays { left, right } => EvalErrorV::NotTwoArrays {
                left: left@,
                right: right@,
            },
            EvalError::OutOfRange { label } => EvalErrorV::OutOfRange { label: label@ },
            EvalError::NotJson(m) => EvalErrorV::NotJson(m@),
        }
    }
}

/// The message of an evaluation error.
pub open spec fn eval_error_text(e: EvalErrorV) -> Seq<char> {
    match e {
        EvalErrorV::UnknownVar(v) => "unknown AgentIR var Var("@ + text::quoted(v) + ")"@,
        EvalErrorV::FieldNotFound { field, value } => "AgentIR field "@ + text::quoted(field)
            + " not found on "@ + json::json_text(value),
        EvalErrorV::IndexNotFound { index, value } => "AgentIR index "@ + text::decimal_int(index)
            + " not found on "@ + json::json_text(value),
        EvalErrorV::NotSized { label, value } => "AgentIR "@ + label
            + " expected array or string, got "@ + json::json_text(value),
        EvalErrorV::NotBool { label, value } => "AgentIR "@ + label + " must be bool, got "@
            + json::json_text(value),
        EvalErrorV::NotString { label, value } => "AgentIR "@ + label + " must be string, got "@
            + json::json_text(value),
        EvalErrorV::NotNumber { label, value } => "AgentIR "@ + label + " must be number, got "@
            + json::json_text(value),
        EvalErrorV::NotI64 { label, value } => "AgentIR "@ + label
            + " must be i64-compatible, got "@ + json::json_text(value),
        EvalErrorV::Negative { label, number } => "AgentIR "@ + label
            + " must be non-negative, got "@ + text::decimal_int(number),
        EvalErrorV::NotArray { label, value } => "AgentIR "@ + label + " expected array, got "@
            + json::json_text(value),
        EvalErrorV::NotTwoArrays { left, right } => "AgentIR Concat expected two arrays, got "@
            + json::json_text(left) + " and "@ + json::json_text(right),
        EvalErrorV::OutOfRange { label } => "AgentIR "@ + label + " is out of the i64 range"@,
        EvalErrorV::NotJson(m) => "AgentIR JsonParse failed: "@ + m,
    }
}

/// Joins texts.
pub(crate) fn join4(a: &str, b: &str, c: &str, d: &str) -> (r: String)
    ensures
        r@ == a@ + b@ + c@ + d@,
{
    let mut out = a.to_owned();
    out.append(b);
    out.append(c);
    out.append(d);
    out
}

impl EvalError {
    /// The message of the error.
    pub fn message(&self) -> (r: String)
        ensures
            r@ == eval_error_text(self@),
    {
        let r = match self {
            EvalError::UnknownVar(v) => join4(
                "unknown AgentIR var Var(",
                debug_quoted(v.as_str()).as_str(),
                ")",
                "",
            ),
            EvalError::FieldNotFound { field, value } => join4(
                "AgentIR field ",
                debug_quoted(field.as_str()).as_str(),
                " not found on ",
                value.to_text().as_str(),
            ),
            EvalError::IndexNotFound { index, value } => join4(
                "AgentIR index ",
                decimal_int_of(*index as i128).as_str(),
                " not found on ",
                value.to_text().as_str(),
            ),
            EvalError::NotSized { label, value } => join4(
                "AgentIR ",
                label.as_str(),
                " expected array or string, got ",
                value.to_text().as_str(),
            ),
            EvalError::NotBool { label, value } => join4(
                "AgentIR ",
                label.as_str(),
                " must be bool, got ",
                value.to_text().as_str(),
            ),
            EvalError::NotString { label, value } => join4(
                "AgentIR ",
                label.as_str(),
                " must be string, got ",
                value.to_text().as_str(),
            ),
            EvalError::NotNumber { label, value } => join4(
                "AgentIR ",
                label.as_str(),
                " must be number, got ",
                value.to_text().as_str(),
            ),
            EvalError::NotI64 { label, value } => join4(
                "AgentIR ",
                label.as_str(),
                " must be i64-compatible, got ",
                value.to_text().as_str(),
            ),
            EvalError::Negative { label, number } => join4(
                "AgentIR ",
                label.as_str(),
                " must be non-negative, got ",
                decimal_int_of(*number as i128).as_str(),
            ),
            EvalError::NotArray { label, value } => join4(
                "AgentIR ",
                label.as_str(),
                " expected array, got ",
                value.to_text().as_str(),
            ),
            EvalError::NotTwoArrays { left, right } => join4(
                "AgentIR Concat expected two arrays, got ",
                left.to_text().as_str(),
                " and ",
                right.to_text().as_str(),
            ),
            EvalError::OutOfRange { label } => join4(
                "AgentIR ",
                label.as_str(),
                " is out of the i64 range",
                "",
            ),
            EvalError::NotJson(m) => join4("AgentIR JsonParse failed: ", m.as_str(), "", ""),
        };
        proof {
            reveal_strlit("");
        }
        assert(r@ =~= eval_error_text(self@));
        r
    }
}

/// The value of a variable.
pub open spec fn var_value(env: Fields, name: Seq<char>) -> Result<JsonV, EvalErrorV> {
    match json::lookup(env, name) {
        Some(v) => Ok(v),
        None => Err(EvalErrorV::UnknownVar(name)),
    }
}

/// A text where one is needed.
pub open spec fn need_string(r: Result<JsonV, EvalErrorV>, label: Seq<char>) -> Result<
    Seq<char>,
    EvalErrorV,
> {
    match r {
        Ok(JsonV::Str(s)) => Ok(s),
        Ok(value) => Err(EvalErrorV::NotString { label, value }),
        Err(e) => Err(e),
    }
}

/// A truth value where one is needed.
pub open spec fn need_bool(r: Result<JsonV, EvalErrorV>, label: Seq<char>) -> Result<
    bool,
    EvalErrorV,
> {
    match r {
        Ok(JsonV::Bool(b)) => Ok(b),
        Ok(value) => Err(EvalErrorV::NotBool { label, value }),
        Err(e) => Err(e),
    }
}

/// An integer in the range of `i64` where one is needed.
pub open spec fn need_number(r: Result<JsonV, EvalErrorV>, label: Seq<char>) -> Result<
    int,
    EvalErrorV,
> {
    match r {
        Ok(JsonV::Int(n)) => if i64::MIN <= n <= i64::MAX {
            Ok(n)
        } else {
            Err(EvalErrorV::NotI64 { label, value: JsonV::Int(n) })
        },
        Ok(JsonV::Float(t)) => Err(EvalErrorV::NotI64 { label, value: JsonV::Float(t) }),
        Ok(value) => Err(EvalErrorV::NotNumber { label, value }),
        Err(e) => Err(e),
    }
}

/// An index where one is needed.
pub open spec fn need_index(r: Result<JsonV, EvalErrorV>, label: Seq<char>) -> Result<
    int,
    EvalErrorV,
> {
    match need_number(r, label) {
        Ok(n) => if 0 <= n <= usize::MAX {
            Ok(n)
        } else {
            Err(EvalErrorV::Negative { label, number: n })
        },
        Err(e) => Err(e),
    }
}

/// A sum or difference in the range of `i64`.
pub open spec fn in_range(n: int, label: Seq<char>) -> Result<JsonV, EvalErrorV> {
    if i64::MIN <= n <= i64::MAX {
        Ok(JsonV::Int(n))
    } else {
        Err(EvalErrorV::OutOfRange { label })
    }
}

/// The value of an expression.  Branches, defaults and the right operands of
/// `Or` and `And` are evaluated only where they are reached.
pub open spec fn eval(env: Fields, e: ExprV) -> Result<JsonV, EvalErrorV>
    decreases e,
{
    match e {
        ExprV::Value(v) => Ok(v),
        ExprV::Var(x) => var_value(env, x),
        ExprV::Field { base, field } => match var_value(env, base) {
            Ok(value) => match value.field(field) {
                Some(v) => Ok(v),
                None => Err(EvalErrorV::FieldNotFound { field, value }),
            },
            Err(e) => Err(e),
        },
        ExprV::FieldOr { base, field, default } => match var_value(env, base) {
            Ok(value) => match value.field(field) {
                Some(v) => Ok(v),
                None => eval(env, *default),
            },
            Err(e) => Err(e),
        },
        ExprV::StringOr { value, default } => match eval(env, *value) {
            Ok(JsonV::Str(s)) => Ok(JsonV::Str(s)),
            Ok(_) => eval(env, *default),
            Err(e) => Err(e),
        },
        ExprV::If { cond, then_value, else_value } => match need_bool(
            eval(env, *cond),
            "If.cond"@,
        ) {
            Ok(b) => if b {
                eval(env, *then_value)
            } else {
                eval(env, *else_value)
            },
            Err(e) => Err(e),
        },
        ExprV::Index { base, index } => match var_value(env, base) {
            Ok(value) => match need_index(eval(env, *index), "Index.index"@) {
                Ok(i) => match value.item(i) {
                    Some(v) => Ok(v),
                    None => Err(EvalErrorV::IndexNotFound { index: i, value }),
                },
                Err(e) => Err(e),
            },
            Err(e) => Err(e),
        },
        ExprV::Len { base } => match var_value(env, base) {
            Ok(JsonV::Array(items)) => Ok(JsonV::Int(items.len() as int)),
            Ok(JsonV::Str(s)) => Ok(JsonV::Int(s.len() as int)),
            Ok(value) => Err(EvalErrorV::NotSized { label: "Len"@, value }),
            Err(e) => Err(e),
        },
        ExprV::IsEmpty { base } => match var_value(env, base) {
            Ok(JsonV::Array(items)) => Ok(JsonV::Bool(items.len() == 0)),
            Ok(JsonV::Str(s)) => Ok(JsonV::Bool(s.len() == 0)),
            Ok(value) => Err(EvalErrorV::NotSized { label: "IsEmpty"@, value }),
            Err(e) => Err(e),
        },
        ExprV::Eq { left, right } => match eval(env, *left) {
            Ok(a) => match eval(env, *right) {
                Ok(b) => Ok(JsonV::Bool(json::same(a, b))),
                Err(e) => Err(e),
            },
            Err(e) => Err(e),
        },
        ExprV::Lt { left, right } => match need_number(eval(env, *left), "Lt.left"@) {
            Ok(a) => match need_number(eval(env, *right), "Lt.right"@) {
                Ok(b) => Ok(JsonV::Bool(a < b)),
                Err(e) => Err(e),
            },
            Err(e) => Err(e),
        },
        ExprV::Or { left, right } => match need_bool(eval(env, *left), "Or.left"@) {
            Ok(a) => if a {
                Ok(JsonV::Bool(true))
            } else {
                match need_bool(eval(env, *right), "Or.right"@) {
                    Ok(b) => Ok(JsonV::Bool(b)),
                    Err(e) => Err(e),
                }
            },
            Err(e) => Err(e),
        },
        ExprV::And { left, right } => match need_bool(eval(env, *left), "And.left"@) {
            Ok(a) => if !a {
                Ok(JsonV::Bool(false))
            } else {
                match need_bool(eval(env, *right), "And.right"@) {
                    Ok(b) => Ok(JsonV::Bool(b)),
                    Err(e) => Err(e),
                }
            },
            Err(e) => Err(e),
        },
        ExprV::HasPendingToolCalls { base } => match var_value(env, base) {
            Ok(JsonV::Array(items)) => Ok(JsonV::Bool(pending_calls(items).len() > 0)),
            Ok(value) => Err(EvalErrorV::NotArray { label: "HasPendingToolCalls"@, value }),
            Err(e) => Err(e),
        },
        ExprV::Add { left, right } => match need_number(eval(env, *left), "Add.left"@) {
            Ok(a) => match need_number(eval(env, *right), "Add.right"@) {
                Ok(b) => in_range(a + b, "Add"@),
                Err(e) => Err(e),
            },
            Err(e) => Err(e),
        },
        ExprV::Sub { left, right } => match need_number(eval(env, *left), "Sub.left"@) {
            Ok(a) => match need_number(eval(env, *right), "Sub.right"@) {
                Ok(b) => in_range(a - b, "Sub"@),
                Err(e) => Err(e),
            },
            Err(e) => Err(e),
        },
        ExprV::Push { base, value } => match var_value(env, base) {
            Ok(JsonV::Array(items)) => match eval(env, *value) {
                Ok(v) => Ok(JsonV::Array(items.push(v))),
                Err(e) => Err(e),
            },
            Ok(value) => Err(EvalErrorV::NotArray { label: "Push"@, value }),
            Err(e) => Err(e),
        },
        ExprV::JsonParse { value } => match need_string(eval(env, *value), "JsonParse.value"@) {
            Ok(s) => match json::parsed(s) {
                Ok(v) => Ok(v),
                Err(m) => Err(EvalErrorV::NotJson(m)),
            },
            Err(e) => Err(e),
        },
        ExprV::JsonParseOr { value, default } => match need_string(
            eval(env, *value),
            "JsonParseOr.value"@,
        ) {
            Ok(s) => match json::parsed(s) {
                Ok(v) => Ok(v),
                Err(_) => eval(env, *default),
            },
            Err(e) => Err(e),
        },
        ExprV::ToString { value } => match eval(env, *value) {
            Ok(v) => Ok(JsonV::Str(json::json_text(v))),
            Err(e) => Err(e),
        },
        ExprV::Array(items) => match eval_items(env, items) {
            Ok(vs) => Ok(JsonV::Array(vs)),
            Err(e) => Err(e),
        },
        ExprV::Object(items) => match eval_fields(env, items) {
            Ok(fs) => Ok(JsonV::Object(fs)),
            Err(e) => Err(e),
        },
        ExprV::Concat { left, right } => match eval(env, *left) {
            Ok(a) => match eval(env, *right) {
                Ok(b) => match (a, b) {
                    (JsonV::Array(x), JsonV::Array(y)) => Ok(JsonV::Array(x + y)),
                    _ => Err(EvalErrorV::NotTwoArrays { left: a, right: b }),
                },
                Err(e) => Err(e),
            },
            Err(e) => Err(e),
        },
        ExprV::SelectToolResults { history, ids } => match var_value(env, history) {
            Ok(JsonV::Array(items)) => match eval(env, *ids) {
                Ok(v) => Ok(selection(items, v)),
                Err(e) => Err(e),
            },
            Ok(value) => Err(EvalErrorV::NotArray { label: "SelectToolResults"@, value }),
            Err(e) => Err(e),
        },
    }
}

/// The values of a list of expressions, up to the first that has none.
pub open spec fn eval_items(env: Fields, items: Seq<ExprV>) -> Result<Seq<JsonV>, EvalErrorV>
    decreases items,
{
    if items.len() == 0 {
        Ok(Seq::empty())
    } else {
        match eval_items(env, items.drop_last()) {
            Ok(vs) => match eval(env, items[items.len() - 1]) {
                Ok(v) => Ok(vs.push(v)),
                Err(e) => Err(e),
            },
            Err(e) => Err(e),
        }
    }
}

/// The fields of a list of named expressions, up to the first without value.
pub open spec fn eval_fields(env: Fields, items: Seq<(Seq<char>, ExprV)>) -> Result<
    Fields,
    EvalErrorV,
>
    decreases items,
{
    if items.len() == 0 {
        Ok(Seq::empty())
    } else {
        match eval_fields(env, items.drop_last()) {
            Ok(fs) => match eval(env, items[items.len() - 1].1) {
                Ok(v) => Ok(json::put(fs, items[items.len() - 1].0, v)),
                Err(e) => Err(e),
            },
            Err(e) => Err(e),
        }
    }
}

/// The ids with those of the listed calls added that are not among them.
pub open spec fn add_call_ids(open: Seq<Seq<char>>, list: Seq<JsonV>) -> Seq<Seq<char>>
    decreases list.len(),
{
    if list.len() == 0 {
        open
    } else {
        let before = add_call_ids(open, list.drop_last());
        match list.last().text_field("id"@) {
            Some(id) => if before.contains(id) {
                before
            } else {
                before.push(id)
            },
            None => before,
        }
    }
}

/// The elements of the field `key`, where it is an array.
pub open spec fn list_field(v: JsonV, key: Seq<char>) -> Seq<JsonV> {
    match v.field(key) {
        Some(JsonV::Array(items)) => items,
        _ => Seq::empty(),
    }
}

/// What one JSON message does to the open call ids.
pub open spec fn settle_json(open: Seq<Seq<char>>, m: JsonV) -> Seq<Seq<char>> {
    let opened = add_call_ids(open, list_field(m, "tool_calls"@));
    match m.text_field("tool_call_id"@) {
        Some(id) => op::without(opened, id),
        None => opened,
    }
}

/// The ids of the calls that a JSON history leaves without a result.
pub open spec fn pending_calls(items: Seq<JsonV>) -> Seq<Seq<char>>
    decreases items.len(),
{
    if items.len() == 0 {
        Seq::empty()
    } else {
        settle_json(pending_calls(items.drop_last()), items.last())
    }
}

/// The name that the last listed call with this id carries.
pub open spec fn call_name(list: Seq<JsonV>, id: Seq<char>) -> Option<Seq<char>>
    decreases list.len(),
{
    if list.len() == 0 {
        None
    } else if list.last().text_field("id"@) == Some(id) && list.last().text_field("name"@) is Some {
        list.last().text_field("name"@)
    } else {
        call_name(list.drop_last(), id)
    }
}

/// The tool that the history last called under this id.
pub open spec fn tool_name(items: Seq<JsonV>, id: Seq<char>) -> Option<Seq<char>>
    decreases items.len(),
{
    if items.len() == 0 {
        None
    } else {
        match call_name(list_field(items.last(), "tool_calls"@), id) {
            Some(name) => Some(name),
            None => tool_name(items.drop_last(), id),
        }
    }
}

/// The text of a message's content.
pub open spec fn content_text(m: JsonV) -> Seq<char> {
    match m.field("content"@) {
        Some(JsonV::Str(s)) => s,
        Some(v) => json::json_text(v),
        None => Seq::empty(),
    }
}

/// The last result that the history holds for this id.
pub open spec fn tool_content(items: Seq<JsonV>, id: Seq<char>) -> Option<Seq<char>>
    decreases items.len(),
{
    if items.len() == 0 {
        None
    } else if items.last().text_field("tool_call_id"@) == Some(id) {
        Some(content_text(items.last()))
    } else {
        tool_content(items.drop_last(), id)
    }
}

/// The message that quotes a tool result.
pub open spec fn quoted_result(id: Seq<char>, name: Seq<char>, content: Seq<char>) -> JsonV {
    json::object(
        seq![
            ("role"@, JsonV::Str("user"@)),
            (
                "content"@,
                JsonV::Str(
                    "Referenced result of tool call "@ + id + " ("@ + name + "):\n"@ + content,
                ),
            ),
        ],
    )
}

/// What has been selected so far.
pub struct Selected {
    pub messages: Seq<JsonV>,
    pub missing: Seq<JsonV>,
    pub seen: Seq<Seq<char>>,
}

/// One more reference: a repeated id adds nothing, an id with a result is
/// quoted, anything else is missing.
pub open spec fn select_one(history: Seq<JsonV>, s: Selected, element: JsonV) -> Selected {
    match element {
        JsonV::Str(id) => if s.seen.contains(id) {
            s
        } else {
            match tool_content(history, id) {
                Some(content) => Selected {
                    messages: s.messages.push(
                        quoted_result(
                            id,
                            match tool_name(history, id) {
                                Some(name) => name,
                                None => "unknown"@,
                            },
                            content,
                        ),
                    ),
                    missing: s.missing,
                    seen: s.seen.push(id),
                },
                None => Selected {
                    messages: s.messages,
                    missing: s.missing.push(JsonV::Str(id)),
                    seen: s.seen.push(id),
                },
            }
        },
        other => Selected {
            messages: s.messages,
            missing: s.missing.push(JsonV::Str(json::json_text(other))),
            seen: s.seen,
        },
    }
}

/// All references in order.
pub open spec fn select_all(history: Seq<JsonV>, elements: Seq<JsonV>) -> Selected
    decreases elements.len(),
{
    if elements.len() == 0 {
        Selected { messages: Seq::empty(), missing: Seq::empty(), seen: Seq::empty() }
    } else {
        select_one(history, select_all(history, elements.drop_last()), elements.last())
    }
}

/// The selected results and the references that resolve to nothing.
pub open spec fn selection(history: Seq<JsonV>, ids: JsonV) -> JsonV {
    let s = select_all(
        history,
        match ids {
            JsonV::Array(items) => items,
            _ => seq![ids],
        },
    );
    json::object(
        seq![("messages"@, JsonV::Array(s.messages)), ("missing"@, JsonV::Array(s.missing))],
    )
}

/// Whether a value fits a pattern.
pub open spec fn fits(v: JsonV, p: PatternV) -> bool
    decreases p,
{
    match p {
        PatternV::Null => v is Null,
        PatternV::Bool(b) => v == JsonV::Bool(b),
        PatternV::Text(s) => v == JsonV::Str(s),
        PatternV::Number(n) => (v is Int || v is Float) && json::same(v, n),
        PatternV::ObjectField { field, pattern } => match v.field(field) {
            Some(x) => fits(x, *pattern),
            None => false,
        },
        PatternV::Any => true,
    }
}

/// Whether a list of strings holds a text.
fn holds(list: &Vec<String>, id: &str) -> (r: bool)
    ensures
        r == op::texts(list@).contains(id@),
{
    let mut i: usize = 0;
    while i < list.len()
        invariant
            i <= list@.len(),
            forall|j: int| 0 <= j < i ==> (#[trigger] list@[j])@ != id@,
        decreases list@.len() - i,
    {
        if same_text(list[i].as_str(), id) {
            assert(op::texts(list@)[i as int] == id@);
            return true;
        }
        i += 1;
    }
    assert(!op::texts(list@).contains(id@)) by {
        if op::texts(list@).contains(id@) {
            let k = choose|k: int| 0 <= k < op::texts(list@).len() && op::texts(list@)[k] == id@;
            assert(list@[k]@ == id@);
        }
    }
    false
}

/// Appends a text to a list of strings.
fn push_text(list: &mut Vec<String>, id: &str)
    ensures
        op::texts(final(list)@) == op::texts(old(list)@).push(id@),
{
    let ghost before = list@;
    let owned = id.to_owned();
    list.push(owned);
    assert(op::texts(list@) =~= op::texts(before).push(owned@));
}

/// The elements of the field `key`, where it is an array.
fn items_of<'a>(v: &'a Json, key: &str) -> (r: Option<&'a Vec<Json>>)
    ensures
        match r {
            Some(items) => list_field(v@, key@) == json::values(items@),
            None => list_field(v@, key@) == Seq::<JsonV>::empty(),
        },
{
    match v.get(key) {
        Some(x) => x.as_array(),
        None => None,
    }
}

/// Opens the calls of one JSON message.
fn open_call_ids(open: Vec<String>, list: &Vec<Json>) -> (r: Vec<String>)
    ensures
        op::texts(r@) == add_call_ids(op::texts(open@), json::values(list@)),
{
    let ghost start = op::texts(open@);
    let ghost vs = json::values(list@);
    let mut now = open;
    let mut i: usize = 0;
    assert(vs.take(0) =~= Seq::empty());
    while i < list.len()
        invariant
            i <= list@.len(),
            vs == json::values(list@),
            op::texts(now@) == add_call_ids(start, vs.take(i as int)),
        decreases list@.len() - i,
    {
        assert(vs.take(i + 1).drop_last() =~= vs.take(i as int));
        assert(vs.take(i + 1).last() == list@[i as int]@);
        if let Some(id) = list[i].get_str("id") {
            if !holds(&now, id) {
                push_text(&mut now, id);
            }
        }
        i += 1;
    }
    assert(vs.take(i as int) =~= vs);
    now
}

/// Closes one call.
fn close_id(open: &Vec<String>, id: &str) -> (r: Vec<String>)
    ensures
        op::texts(r@) == op::without(op::texts(open@), id@),
{
    let mut out: Vec<String> = Vec::new();
    let mut i: usize = 0;
    assert(op::texts(open@).take(0) =~= Seq::empty());
    assert(op::texts(out@) =~= Seq::empty());
    while i < open.len()
        invariant
            i <= open@.len(),
            op::texts(out@) == op::without(op::texts(open@).take(i as int), id@),
        decreases open@.len() - i,
    {
        assert(op::texts(open@).take(i + 1).drop_last() =~= op::texts(open@).take(i as int));
        if !same_text(open[i].as_str(), id) {
            push_text(&mut out, open[i].as_str());
        }
        i += 1;
    }
    assert(op::texts(open@).take(i as int) =~= op::texts(open@));
    out
}

/// Whether a JSON history leaves a call without a result.
pub fn has_pending_calls(items: &Vec<Json>) -> (r: bool)
    ensures
        r == (pending_calls(json::values(items@)).len() > 0),
{
    let ghost vs = json::values(items@);
    let mut open: Vec<String> = Vec::new();
    let mut i: usize = 0;
    assert(vs.take(0) =~= Seq::empty());
    assert(op::texts(open@) =~= Seq::empty());
    while i < items.len()
        invariant
            i <= items@.len(),
            vs == json::values(items@),
            op::texts(open@) == pending_calls(vs.take(i as int)),
        decreases items@.len() - i,
    {
        assert(vs.take(i + 1).drop_last() =~= vs.take(i as int));
        assert(vs.take(i + 1).last() == items@[i as int]@);
        if let Some(list) = items_of(&items[i], "tool_calls") {
            open = open_call_ids(open, list);
        }
        if let Some(id) = items[i].get_str("tool_call_id") {
            open = close_id(&open, id);
        }
        i += 1;
    }
    assert(vs.take(i as int) =~= vs);
    assert(op::texts(open@).len() == open@.len());
    open.len() > 0
}

/// The name that the last listed call with this id carries.
fn find_call_name<'a>(list: &'a Vec<Json>, id: &str) -> (r: Option<&'a str>)
    ensures
        match r {
            Some(name) => call_name(json::values(list@), id@) == Some(name@),
            None => call_name(json::values(list@), id@) is None,
        },
{
    let ghost vs = json::values(list@);
    let mut i: usize = list.len();
    assert(vs.take(i as int) =~= vs);
    while i > 0
        invariant
            i <= list@.len(),
            vs == json::values(list@),
            call_name(vs, id@) == call_name(vs.take(i as int), id@),
        decreases i,
    {
        assert(vs.take(i as int).drop_last() =~= vs.take(i - 1));
        assert(vs.take(i as int).last() == list@[i - 1]@);
        if let (Some(found), Some(name)) = (
            list[i - 1].get_str("id"),
            list[i - 1].get_str("name"),
        ) {
            if same_text(found, id) {
                return Some(name);
            }
        }
        i -= 1;
    }
    None
}

/// The tool that the history last called under this id.
fn find_tool_name<'a>(items: &'a Vec<Json>, id: &str) -> (r: Option<&'a str>)
    ensures
        match r {
            Some(name) => tool_name(json::values(items@), id@) == Some(name@),
            None => tool_name(json::values(items@), id@) is None,
        },
{
    let ghost vs = json::values(items@);
    let mut i: usize = items.len();
    assert(vs.take(i as int) =~= vs);
    while i > 0
        invariant
            i <= items@.len(),
            vs == json::values(items@),
            tool_name(vs, id@) == tool_name(vs.take(i as int), id@),
        decreases i,
    {
        assert(vs.take(i as int).drop_last() =~= vs.take(i - 1));
        assert(vs.take(i as int).last() == items@[i - 1]@);
        match items_of(&items[i - 1], "tool_calls") {
            Some(list) => {
                if let Some(name) = find_call_name(list, id) {
                    return Some(name);
                }
            },
            None => {},
        }
        i -= 1;
    }
    None
}

/// The last result that the history holds for this id.
fn find_tool_content(items: &Vec<Json>, id: &str) -> (r: Option<String>)
    ensures
        match r {
            Some(content) => tool_content(json::values(items@), id@) == Some(content@),
            None => tool_content(json::values(items@), id@) is None,
        },
{
    let ghost vs = json::values(items@);
    let mut i: usize = items.len();
    assert(vs.take(i as int) =~= vs);
    while i > 0
        invariant
            i <= items@.len(),
            vs == json::values(items@),
            tool_content(vs, id@) == tool_content(vs.take(i as int), id@),
        decreases i,
    {
        assert(vs.take(i as int).drop_last() =~= vs.take(i - 1));
        assert(vs.take(i as int).last() == items@[i - 1]@);
        if let Some(found) = items[i - 1].get_str("tool_call_id") {
            if same_text(found, id) {
                return Some(
                    match items[i - 1].get("content") {
                        Some(v) => match v {
                            Json::Str(s) => s.clone(),
                            _ => v.to_text(),
                        },
                        None => String::new(),
                    },
                );
            }
        }
        i -= 1;
    }
    None
}

/// The message that quotes a tool result.
fn quote_result(id: &str, name: &str, content: &str) -> (r: Json)
    ensures
        r@ == quoted_result(id@, name@, content@),
{
    let mut body = join4("Referenced result of tool call ", id, " (", name);
    body.append("):\n");
    body.append(content);
    let mut list: Vec<(String, Json)> = Vec::new();
    add_field(&mut list, "role", Json::text("user"));
    add_field(&mut list, "content", Json::Str(body));
    assert(json::fields(list@) =~= seq![
        ("role"@, JsonV::Str("user"@)),
        ("content"@, JsonV::Str(body@)),
    ]);
    object_of(list)
}

/// Resolves tool-call ids against a history: one user message per resolved id
/// in order of first occurrence, and every reference that resolves to nothing.
pub fn select_tool_results(history: &Vec<Json>, ids: &Json) -> (r: Json)
    ensures
        r@ == selection(json::values(history@), ids@),
{
    broadcast use json::group_json;

    let ghost h = json::values(history@);
    let elements: Vec<Json> = match ids {
        Json::Array(items) => copy_values(items),
        _ => vec![ids.clone()],
    };
    let ghost es = json::values(elements@);
    assert(es =~= match ids@ {
        JsonV::Array(items) => items,
        _ => seq![ids@],
    });
    let mut messages: Vec<Json> = Vec::new();
    let mut missing: Vec<Json> = Vec::new();
    let mut seen: Vec<String> = Vec::new();
    let mut i: usize = 0;
    assert(es.take(0) =~= Seq::empty());
    assert(json::values(messages@) =~= Seq::empty());
    assert(op::texts(seen@) =~= Seq::empty());
    while i < elements.len()
        invariant
            i <= elements@.len(),
            es == json::values(elements@),
            h == json::values(history@),
            select_all(h, es.take(i as int)) == (Selected {
                messages: json::values(messages@),
                missing: json::values(missing@),
                seen: op::texts(seen@),
            }),
        decreases elements@.len() - i,
    {
        assert(es.take(i + 1).drop_last() =~= es.take(i as int));
        assert(es.take(i + 1).last() == elements@[i as int]@);
        match &elements[i] {
            Json::Str(id) => {
                if !holds(&seen, id.as_str()) {
                    push_text(&mut seen, id.as_str());
                    match find_tool_content(history, id.as_str()) {
                        Some(content) => {
                            let name = match find_tool_name(history, id.as_str()) {
                                Some(name) => name,
                                None => "unknown",
                            };
                            let m = quote_result(id.as_str(), name, content.as_str());
                            let ghost before = messages@;
                            messages.push(m);
                            assert(json::values(messages@) == json::values(before).push(m@));
                        },
                        None => {
                            let m = Json::Str(id.clone());
                            let ghost before = missing@;
                            missing.push(m);
                            assert(json::values(missing@) == json::values(before).push(m@));
                        },
                    }
                }
            },
            other => {
                let m = Json::Str(other.to_text());
                let ghost before = missing@;
                missing.push(m);
                assert(json::values(missing@) == json::values(before).push(m@));
            },
        }
        i += 1;
    }
    assert(es.take(i as int) =~= es);
    let mut list: Vec<(String, Json)> = Vec::new();
    add_field(&mut list, "messages", Json::Array(messages));
    add_field(&mut list, "missing", Json::Array(missing));
    assert(json::fields(list@) =~= seq![
        ("messages"@, JsonV::Array(json::values(messages@))),
        ("missing"@, JsonV::Array(json::values(missing@))),
    ]);
    object_of(list)
}

/// Whether a value fits a pattern.
pub fn pattern_matches(v: &Json, p: &Pattern) -> (r: bool)
    ensures
        r == fits(v@, p@),
    decreases p,
{
    match p {
        Pattern::Null => match v {
            Json::Null => true,
            _ => false,
        },
        Pattern::Bool(b) => match v {
            Json::Bool(x) => *x == *b,
            _ => false,
        },
        Pattern::Text(s) => match v {
            Json::Str(x) => *x == *s,
            _ => false,
        },
        Pattern::Number(n) => match v {
            Json::Int(_) => same_json(v, n),
            Json::Float(_) => same_json(v, n),
            _ => false,
        },
        Pattern::ObjectField { field, pattern } => match v.get(field.as_str()) {
            Some(x) => pattern_matches(x, pattern),
            None => false,
        },
        Pattern::Any => true,
    }
}

/// What evaluating an expression gives, against the model.
pub open spec fn evaluates(r: Result<Json, EvalError>, m: Result<JsonV, EvalErrorV>) -> bool {
    match (r, m) {
        (Ok(v), Ok(x)) => v@ == x,
        (Err(e), Err(x)) => e@ == x,
        _ => false,
    }
}

/// The value of a variable.
fn var_ref<'a>(env: &'a Vec<(String, Json)>, name: &String) -> (r: Result<&'a Json, EvalError>)
    ensures
        match (r, var_value(json::fields(env@), name@)) {
            (Ok(v), Ok(x)) => v@ == x,
            (Err(e), Err(x)) => e@ == x,
            _ => false,
        },
{
    match get_field(env, name.as_str()) {
        Some(v) => Ok(v),
        None => Err(EvalError::UnknownVar(name.clone())),
    }
}

/// The text that an expression must give.
pub fn string_expr(env: &Vec<(String, Json)>, e: &Expr, label: &str) -> (r: Result<
    String,
    EvalError,
>)
    ensures
        match (r, need_string(eval(json::fields(env@), e@), label@)) {
            (Ok(s), Ok(x)) => s@ == x,
            (Err(e), Err(x)) => e@ == x,
            _ => false,
        },
    decreases e, 1nat,
{
    match eval_expr(env, e) {
        Ok(Json::Str(s)) => Ok(s),
        Ok(value) => Err(EvalError::NotString { label: label.to_owned(), value }),
        Err(e) => Err(e),
    }
}

/// The truth value that an expression must give.
pub fn bool_expr(env: &Vec<(String, Json)>, e: &Expr, label: &str) -> (r: Result<bool, EvalError>)
    ensures
        match (r, need_bool(eval(json::fields(env@), e@), label@)) {
            (Ok(s), Ok(x)) => s == x,
            (Err(e), Err(x)) => e@ == x,
            _ => false,
        },
    decreases e, 1nat,
{
    match eval_expr(env, e) {
        Ok(Json::Bool(b)) => Ok(b),
        Ok(value) => Err(EvalError::NotBool { label: label.to_owned(), value }),
        Err(e) => Err(e),
    }
}

/// The `i64` that an expression must give.
pub fn number_expr(env: &Vec<(String, Json)>, e: &Expr, label: &str) -> (r: Result<i64, EvalError>)
    ensures
        match (r, need_number(eval(json::fields(env@), e@), label@)) {
            (Ok(n), Ok(x)) => n == x,
            (Err(e), Err(x)) => e@ == x,
            _ => false,
        },
    decreases e, 1nat,
{
    match eval_expr(env, e) {
        Ok(Json::Int(n)) => {
            if n >= i64::MIN as i128 && n <= i64::MAX as i128 {
                Ok(n as i64)
            } else {
                Err(EvalError::NotI64 { label: label.to_owned(), value: Json::Int(n) })
            }
        },
        Ok(Json::Float(t)) => Err(
            EvalError::NotI64 { label: label.to_owned(), value: Json::Float(t) },
        ),
        Ok(value) => Err(EvalError::NotNumber { label: label.to_owned(), value }),
        Err(e) => Err(e),
    }
}

/// The index that an expression must give.
pub fn usize_expr(env: &Vec<(String, Json)>, e: &Expr, label: &str) -> (r: Result<
    usize,
    EvalError,
>)
    ensures
        match (r, need_index(eval(json::fields(env@), e@), label@)) {
            (Ok(n), Ok(x)) => n == x,
            (Err(e), Err(x)) => e@ == x,
            _ => false,
        },
    decreases e, 2nat,
{
    match number_expr(env, e, label) {
        Ok(n) => {
            if n >= 0 && n as u64 <= usize::MAX as u64 {
                Ok(n as usize)
            } else {
                Err(EvalError::Negative { label: label.to_owned(), number: n })
            }
        },
        Err(e) => Err(e),
    }
}

/// A sum or difference as a value.
fn ranged(n: i128, label: &str) -> (r: Result<Json, EvalError>)
    ensures
        evaluates(r, in_range(n as int, label@)),
{
    if n >= i64::MIN as i128 && n <= i64::MAX as i128 {
        Ok(Json::Int(n))
    } else {
        Err(EvalError::OutOfRange { label: label.to_owned() })
    }
}

/// The value of an expression.
pub fn eval_expr(env: &Vec<(String, Json)>, e: &Expr) -> (r: Result<Json, EvalError>)
    ensures
        evaluates(r, eval(json::fields(env@), e@)),
    decreases e, 0nat,
{
    broadcast use json::group_json;

    match e {
        Expr::Value(v) => Ok(v.clone()),
        Expr::Var(x) => match var_ref(env, &x.0) {
            Ok(v) => Ok(v.clone()),
            Err(e) => Err(e),
        },
        Expr::Field { base, field } => match var_ref(env, &base.0) {
            Ok(value) => match value.get(field.as_str()) {
                Some(v) => Ok(v.clone()),
                None => Err(
                    EvalError::FieldNotFound { field: field.clone(), value: value.clone() },
                ),
            },
            Err(e) => Err(e),
        },
        Expr::FieldOr { base, field, default } => match var_ref(env, &base.0) {
            Ok(value) => match value.get(field.as_str()) {
                Some(v) => Ok(v.clone()),
                None => eval_expr(env, default),
            },
            Err(e) => Err(e),
        },
        Expr::StringOr { value, default } => match eval_expr(env, value) {
            Ok(Json::Str(s)) => Ok(Json::Str(s)),
            Ok(_) => eval_expr(env, default),
            Err(e) => Err(e),
        },
        Expr::If { cond, then_value, else_value } => match bool_expr(env, cond, "If.cond") {
            Ok(b) => if b {
                eval_expr(env, then_value)
            } else {
                eval_expr(env, else_value)
            },
            Err(e) => Err(e),
        },
        Expr::Index { base, index } => match var_ref(env, &base.0) {
            Ok(value) => match usize_expr(env, index, "Index.index") {
                Ok(i) => match value.at(i) {
                    Some(v) => Ok(v.clone()),
                    None => Err(EvalError::IndexNotFound { index: i, value: value.clone() }),
                },
                Err(e) => Err(e),
            },
            Err(e) => Err(e),
        },
        Expr::Len { base } => match var_ref(env, &base.0) {
            Ok(value) => match value {
                Json::Array(items) => Ok(Json::Int(items.len() as i128)),
                Json::Str(s) => Ok(Json::Int(s.as_str().unicode_len() as i128)),
                _ => Err(EvalError::NotSized { label: "Len".to_owned(), value: value.clone() }),
            },
            Err(e) => Err(e),
        },
        Expr::IsEmpty { base } => match var_ref(env, &base.0) {
            Ok(value) => match value {
                Json::Array(items) => Ok(Json::Bool(items.len() == 0)),
                Json::Str(s) => Ok(Json::Bool(s.as_str().is_empty())),
                _ => Err(EvalError::NotSized { label: "IsEmpty".to_owned(), value: value.clone() }),
            },
            Err(e) => Err(e),
        },
        Expr::Eq { left, right } => match eval_expr(env, left) {
            Ok(a) => match eval_expr(env, right) {
                Ok(b) => Ok(Json::Bool(same_json(&a, &b))),
                Err(e) => Err(e),
            },
            Err(e) => Err(e),
        },
        Expr::Lt { left, right } => match number_expr(env, left, "Lt.left") {
            Ok(a) => match number_expr(env, right, "Lt.right") {
                Ok(b) => Ok(Json::Bool(a < b)),
                Err(e) => Err(e),
            },
            Err(e) => Err(e),
        },
        Expr::Or { left, right } => match bool_expr(env, left, "Or.left") {
            Ok(a) => if a {
                Ok(Json::Bool(true))
            } else {
                match bool_expr(env, right, "Or.right") {
                    Ok(b) => Ok(Json::Bool(b)),
                    Err(e) => Err(e),
                }
            },
            Err(e) => Err(e),
        },
        Expr::And { left, right } => match bool_expr(env, left, "And.left") {
            Ok(a) => if !a {
                Ok(Json::Bool(false))
            } else {
                match bool_expr(env, right, "And.right") {
                    Ok(b) => Ok(Json::Bool(b)),
                    Err(e) => Err(e),
                }
            },
            Err(e) => Err(e),
        },
        Expr::HasPendingToolCalls { base } => match var_ref(env, &base.0) {
            Ok(value) => match value {
                Json::Array(items) => Ok(Json::Bool(has_pending_calls(items))),
                _ => Err(
                    EvalError::NotArray {
                        label: "HasPendingToolCalls".to_owned(),
                        value: value.clone(),
                    },
                ),
            },
            Err(e) => Err(e),
        },
        Expr::Add { left, right } => match number_expr(env, left, "Add.left") {
            Ok(a) => match number_expr(env, right, "Add.right") {
                Ok(b) => ranged(a as i128 + b as i128, "Add"),
                Err(e) => Err(e),
            },
            Err(e) => Err(e),
        },
        Expr::Sub { left, right } => match number_expr(env, left, "Sub.left") {
            Ok(a) => match number_expr(env, right, "Sub.right") {
                Ok(b) => ranged(a as i128 - b as i128, "Sub"),
                Err(e) => Err(e),
            },
            Err(e) => Err(e),
        },
        Expr::Push { base, value } => match var_ref(env, &base.0) {
            Ok(array) => match array {
                Json::Array(items) => match eval_expr(env, value) {
                    Ok(v) => {
                        let mut out = copy_values(items);
                        let ghost before = out@;
                        out.push(v);
                        assert(json::values(out@) == json::values(before).push(v@));
                        Ok(Json::Array(out))
                    },
                    Err(e) => Err(e),
                },
                _ => Err(EvalError::NotArray { label: "Push".to_owned(), value: array.clone() }),
            },
            Err(e) => Err(e),
        },
        Expr::JsonParse { value } => match string_expr(env, value, "JsonParse.value") {
            Ok(s) => match json::parse(s.as_str()) {
                Ok(v) => Ok(v),
                Err(m) => Err(EvalError::NotJson(m)),
            },
            Err(e) => Err(e),
        },
        Expr::JsonParseOr { value, default } => match string_expr(
            env,
            value,
            "JsonParseOr.value",
        ) {
            Ok(s) => match json::parse(s.as_str()) {
                Ok(v) => Ok(v),
                Err(_) => eval_expr(env, default),
            },
            Err(e) => Err(e),
        },
        Expr::ToString { value } => match eval_expr(env, value) {
            Ok(v) => Ok(Json::Str(v.to_text())),
            Err(e) => Err(e),
        },
        Expr::Array(items) => {
            proof {
                ir::expr_view_parts(*e);
            }
            let ghost es = ir::exprs(items@);
            let ghost f = json::fields(env@);
            let mut out: Vec<Json> = Vec::new();
            let mut i: usize = 0;
            assert(es.take(0) =~= Seq::empty());
            assert(json::values(out@) =~= Seq::empty());
            while i < items.len()
                invariant
                    i <= items@.len(),
                    decreases_to!(e => items@),
                    es == ir::exprs(items@),
                    f == json::fields(env@),
                    e@ == ExprV::Array(es),
                    eval_items(f, es.take(i as int)) == Ok::<Seq<JsonV>, EvalErrorV>(
                        json::values(out@),
                    ),
                decreases items@.len() - i,
            {
                assert(es.take(i + 1).drop_last() =~= es.take(i as int));
                match eval_expr(env, &items[i]) {
                    Ok(v) => {
                        let ghost before = out@;
                        out.push(v);
                        assert(json::values(out@) == json::values(before).push(v@));
                    },
                    Err(error) => {
                        proof {
                            eval_items_stops(f, es, i + 1);
                        }
                        return Err(error);
                    },
                }
                i += 1;
            }
            assert(es.take(i as int) =~= es);
            Ok(Json::Array(out))
        },
        Expr::Object(items) => {
            proof {
                ir::expr_view_parts(*e);
            }
            let ghost es = ir::named_exprs(items@);
            let ghost f = json::fields(env@);
            let mut out: Vec<(String, Json)> = Vec::new();
            let mut i: usize = 0;
            assert(es.take(0) =~= Seq::empty());
            assert(json::fields(out@) =~= Seq::empty());
            while i < items.len()
                invariant
                    i <= items@.len(),
                    decreases_to!(e => items@),
                    es == ir::named_exprs(items@),
                    f == json::fields(env@),
                    e@ == ExprV::Object(es),
                    eval_fields(f, es.take(i as int)) == Ok::<Fields, EvalErrorV>(
                        json::fields(out@),
                    ),
                decreases items@.len() - i,
            {
                assert(es.take(i + 1).drop_last() =~= es.take(i as int));
                match eval_expr(env, &items[i].1) {
                    Ok(v) => {
                        put_field(&mut out, items[i].0.clone(), v);
                    },
                    Err(error) => {
                        proof {
                            eval_fields_stops(f, es, i + 1);
                        }
                        return Err(error);
                    },
                }
                i += 1;
            }
            assert(es.take(i as int) =~= es);
            Ok(Json::Object(out))
        },
        Expr::Concat { left, right } => match eval_expr(env, left) {
            Ok(a) => match eval_expr(env, right) {
                Ok(b) => match (a, b) {
                    (Json::Array(x), Json::Array(y)) => {
                        let ghost xs = json::values(x@);
                        let ghost ys = json::values(y@);
                        let mut out = x;
                        let mut rest = y;
                        out.append(&mut rest);
                        assert(json::values(out@) =~= xs + ys);
                        Ok(Json::Array(out))
                    },
                    (left, right) => Err(EvalError::NotTwoArrays { left, right }),
                },
                Err(e) => Err(e),
            },
            Err(e) => Err(e),
        },
        Expr::SelectToolResults { history, ids } => match var_ref(env, &history.0) {
            Ok(value) => match value {
                Json::Array(items) => match eval_expr(env, ids) {
                    Ok(v) => Ok(select_tool_results(items, &v)),
                    Err(e) => Err(e),
                },
                _ => Err(
                    EvalError::NotArray {
                        label: "SelectToolResults".to_owned(),
                        value: value.clone(),
                    },
                ),
            },
            Err(e) => Err(e),
        },
    }
}

proof fn eval_items_stops(env: Fields, items: Seq<ExprV>, n: int)
    requires
        0 <= n <= items.len(),
        eval_items(env, items.take(n)) is Err,
    ensures
        eval_items(env, items) == eval_items(env, items.take(n)),
    decreases items.len(),
{
    if n == items.len() {
        assert(items.take(n) =~= items);
    } else {
        assert(items.drop_last().take(n) =~= items.take(n));
        eval_items_stops(env, items.drop_last(), n);
    }
}

proof fn eval_fields_stops(env: Fields, items: Seq<(Seq<char>, ExprV)>, n: int)
    requires
        0 <= n <= items.len(),
        eval_fields(env, items.take(n)) is Err,
    ensures
        eval_fields(env, items) == eval_fields(env, items.take(n)),
    decreases items.len(),
{
    if n == items.len() {
        assert(items.take(n) =~= items);
    } else {
        assert(items.drop_last().take(n) =~= items.take(n));
        eval_fields_stops(env, items.drop_last(), n);
    }
}

/// A conditional gives what the chosen branch gives, whatever the other one
/// would do.
pub proof fn untaken_branch_is_irrelevant(
    env: Fields,
    cond: ExprV,
    taken: ExprV,
    one: ExprV,
    other: ExprV,
)
    ensures
        eval(env, cond) == Ok::<JsonV, EvalErrorV>(JsonV::Bool(true)) ==> eval(
            env,
            ExprV::If {
                cond: Box::new(cond),
                then_value: Box::new(taken),
                else_value: Box::new(one),
            },
        ) == eval(env, taken) && eval(
            env,
            ExprV::If {
                cond: Box::new(cond),
                then_value: Box::new(taken),
                else_value: Box::new(other),
            },
        ) == eval(env, taken),
        eval(env, cond) == Ok::<JsonV, EvalErrorV>(JsonV::Bool(false)) ==> eval(
            env,
            ExprV::If {
                cond: Box::new(cond),
                then_value: Box::new(one),
                else_value: Box::new(taken),
            },
        ) == eval(env, taken),
{
}

/// How many of some references are not texts.
pub open spec fn odd_references(elements: Seq<JsonV>) -> nat
    decreases elements.len(),
{
    if elements.len() == 0 {
        0
    } else {
        odd_references(elements.drop_last()) + if elements.last() is Str {
            0nat
        } else {
            1nat
        }
    }
}

/// The message that quotes the result of a call.
pub open spec fn quote_of(history: Seq<JsonV>, id: Seq<char>) -> JsonV {
    quoted_result(
        id,
        match tool_name(history, id) {
            Some(name) => name,
            None => "unknown"@,
        },
        match tool_content(history, id) {
            Some(content) => content,
            None => Seq::empty(),
        },
    )
}

/// Whether a reference leads to no result.  What is no text leads nowhere.
pub open spec fn leads_nowhere(history: Seq<JsonV>, reference: JsonV) -> bool {
    match reference {
        JsonV::Str(id) => tool_content(history, id) is None,
        _ => true,
    }
}

/// How a reference that leads nowhere is named.
pub open spec fn named(reference: JsonV) -> JsonV {
    match reference {
        JsonV::Str(id) => JsonV::Str(id),
        other => JsonV::Str(json::json_text(other)),
    }
}

/// The missing references are those that lead nowhere.
pub proof fn missing_lead_nowhere(history: Seq<JsonV>, elements: Seq<JsonV>)
    ensures
        ({
            let missing = select_all(history, elements).missing;
            &&& forall|i: int|
                0 <= i < elements.len() && leads_nowhere(history, #[trigger] elements[i])
                    ==> missing.contains(named(elements[i]))
            &&& forall|j: int| #![trigger missing[j]]
                0 <= j < missing.len() ==> exists|i: int|
                    0 <= i < elements.len() && leads_nowhere(history, #[trigger] elements[i])
                        && missing[j] == named(elements[i])
        }),
    decreases elements.len(),
{
    if elements.len() > 0 {
        let less = elements.drop_last();
        let last = elements.last();
        let before = select_all(history, less);
        let s = select_all(history, elements);
        missing_lead_nowhere(history, less);
        references_are_accounted_for(history, less);
        kept_by_push(before.missing, s.missing);
        assert forall|i: int|
            0 <= i < elements.len() && leads_nowhere(
                history,
                #[trigger] elements[i],
            ) implies s.missing.contains(named(elements[i])) by {
            if i < less.len() {
                assert(less[i] == elements[i]);
            } else if s.missing.len() > before.missing.len() {
                assert(s.missing[before.missing.len() as int] == named(last));
            }
        }
        assert forall|j: int| #![trigger s.missing[j]] 0 <= j < s.missing.len() implies exists|i: int|
            0 <= i < elements.len() && leads_nowhere(history, #[trigger] elements[i])
                && s.missing[j] == named(elements[i]) by {
            if j < before.missing.len() {
                assert(s.missing[j] == before.missing[j]);
                let i = choose|i: int|
                    0 <= i < less.len() && leads_nowhere(history, #[trigger] less[i])
                        && before.missing[j] == named(less[i]);
                assert(elements[i] == less[i]);
            } else {
                assert(elements[elements.len() - 1] == last);
            }
        }
    }
}

/// Every reference is accounted for: an id with a result is quoted, any other
/// is missing, and an id that is given again adds nothing.
pub proof fn references_are_accounted_for(history: Seq<JsonV>, elements: Seq<JsonV>)
    ensures
        ({
            let s = select_all(history, elements);
            &&& s.seen.no_duplicates()
            &&& s.messages.len() + s.missing.len() == s.seen.len() + odd_references(elements)
            &&& forall|id: Seq<char>| #[trigger]
                s.seen.contains(id) <==> elements.contains(JsonV::Str(id))
            &&& forall|id: Seq<char>| #[trigger]
                s.seen.contains(id) ==> if tool_content(history, id) is Some {
                    s.messages.contains(quote_of(history, id))
                } else {
                    s.missing.contains(JsonV::Str(id))
                }
        }),
    decreases elements.len(),
{
    let s = select_all(history, elements);
    if elements.len() > 0 {
        let less = elements.drop_last();
        let last = elements.last();
        let before = select_all(history, less);
        references_are_accounted_for(history, less);
        assert(elements[elements.len() - 1] == last);
        assert forall|id: Seq<char>| #[trigger] elements.contains(JsonV::Str(id)) == (less.contains(
            JsonV::Str(id),
        ) || last == JsonV::Str(id)) by {
            if elements.contains(JsonV::Str(id)) {
                let i = choose|i: int| 0 <= i < elements.len() && elements[i] == JsonV::Str(id);
                if i < less.len() {
                    assert(less[i] == JsonV::Str(id));
                }
            }
            if less.contains(JsonV::Str(id)) {
                let i = choose|i: int| 0 <= i < less.len() && less[i] == JsonV::Str(id);
                assert(elements[i] == JsonV::Str(id));
            }
        }
        kept_by_push(before.messages, s.messages);
        kept_by_push(before.missing, s.missing);
        assert forall|id: Seq<char>| #[trigger] s.seen.contains(id) == (before.seen.contains(id)
            || last == JsonV::Str(id)) by {
            if before.seen.contains(id) {
                let i = choose|i: int| 0 <= i < before.seen.len() && before.seen[i] == id;
                assert(s.seen[i] == id);
            }
            if last == JsonV::Str(id) && !before.seen.contains(id) {
                assert(s.seen[before.seen.len() as int] == id);
            }
        }
        if let JsonV::Str(id) = last {
            if !before.seen.contains(id) {
                if tool_content(history, id) is Some {
                    assert(s.messages[before.messages.len() as int] == quote_of(history, id));
                } else {
                    assert(s.missing[before.missing.len() as int] == JsonV::Str(id));
                }
            }
        }
    }
}

proof fn kept_by_push(before: Seq<JsonV>, after: Seq<JsonV>)
    requires
        before.len() <= after.len(),
        forall|i: int| 0 <= i < before.len() ==> before[i] == #[trigger] after[i],
    ensures
        forall|v: JsonV| #[trigger] before.contains(v) ==> after.contains(v),
{
    assert forall|v: JsonV| #[trigger] before.contains(v) implies after.contains(v) by {
        let i = choose|i: int| 0 <= i < before.len() && before[i] == v;
        assert(after[i] == v);
    }
}

} // verus!
