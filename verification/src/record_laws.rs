//! The forms in which prompts in the making are written down, how values are
//! written as text, and what is said of an error.
use crate::codec;
use crate::eval;
use crate::eval::{EvalErrorV, Selected};
use crate::form_laws::stands_at;
use crate::ir::SourceKind;
use crate::json;
use crate::json::{Fields, JsonV};
use crate::machine;
use crate::machine::RunErrorV;
use crate::naming::mark;
use crate::op::ToolCallV;
use crate::prompt_ir;
use crate::prompt_ir::{
    BudgetAllocationV, ContextStrategyV, RetrievalMode, RetrievalTiming, SectionOriginV,
    SectionSourceV, TokenBudgetV,
};
use crate::provider;
use crate::text;
use vstd::prelude::*;

verus! {

/// Where a section comes from is written under its kind, with what led there under
/// its name.
pub proof fn origins_are_written_by_part(o: SectionOriginV)
    ensures
        match o {
            SectionOriginV::Static { name } => prompt_ir::origin_json(o).field("Static"@) matches Some(v)
                && v.field("name"@) == Some(JsonV::Str(name)),
            SectionOriginV::Retrieval { backend, mode, query, key, score } => {
                &&& prompt_ir::origin_json(o).field("Retrieval"@) matches Some(v)
                &&& v.field("backend"@) == Some(JsonV::Str(backend))
                &&& v.field("mode"@) == Some(JsonV::Str(mode.called()))
                &&& v.field("query"@) == Some(
                    match query {
                        Some(q) => JsonV::Str(q),
                        None => JsonV::Null,
                    },
                )
                &&& v.field("key"@) == Some(
                    match key {
                        Some(k) => JsonV::Str(k),
                        None => JsonV::Null,
                    },
                )
                &&& v.field("score"@) == Some(
                    match score {
                        Some(n) => JsonV::Float(n),
                        None => JsonV::Null,
                    },
                )
            },
            SectionOriginV::State { key } => prompt_ir::origin_json(o).field("State"@) matches Some(v)
                && v.field("key"@) == Some(JsonV::Str(key)),
            SectionOriginV::User => prompt_ir::origin_json(o) == JsonV::Str("User"@),
            SectionOriginV::ToolResult => prompt_ir::origin_json(o) == JsonV::Str("ToolResult"@),
        },
{
    reveal_strlit("backend");
    reveal_strlit("mode");
    reveal_strlit("query");
    reveal_strlit("key");
    reveal_strlit("score");
    assert(mark("backend"@) == (7nat, 'b', 'd', 'k'));
    assert(mark("mode"@) == (4nat, 'm', 'e', 'd'));
    assert(mark("query"@) == (5nat, 'q', 'y', 'e'));
    assert(mark("key"@) == (3nat, 'k', 'y', 'e'));
    assert(mark("score"@) == (5nat, 's', 'e', 'o'));
    match o {
        SectionOriginV::Static { name } => {
            let f = seq![("name"@, JsonV::Str(name))];
            stands_at(f, 0);
            stands_at(seq![("Static"@, JsonV::Object(f))], 0);
        },
        SectionOriginV::Retrieval { backend, mode, query, key, score } => {
            let f = seq![
                ("backend"@, JsonV::Str(backend)),
                ("mode"@, JsonV::Str(mode.called())),
                ("query"@, codec::nullable(query)),
                ("key"@, codec::nullable(key)),
                ("score"@, prompt_ir::nullable_decimal(score)),
            ];
            stands_at(f, 0);
            stands_at(f, 1);
            stands_at(f, 2);
            stands_at(f, 3);
            stands_at(f, 4);
            stands_at(seq![("Retrieval"@, JsonV::Object(f))], 0);
        },
        SectionOriginV::State { key } => {
            let f = seq![("key"@, JsonV::Str(key))];
            stands_at(f, 0);
            stands_at(seq![("State"@, JsonV::Object(f))], 0);
        },
        _ => {},
    }
}

/// A source, a budget, a strategy and a call are written with their parts under
/// their names.
pub proof fn plans_are_written_by_part(
    s: SectionSourceV,
    b: TokenBudgetV,
    c: ContextStrategyV,
    t: ToolCallV,
)
    ensures
        prompt_ir::source_json(s).field("origin"@) == Some(prompt_ir::origin_json(s.origin)),
        prompt_ir::source_json(s).field("timing"@) == Some(JsonV::Str(s.timing.called())),
        prompt_ir::source_json(s).field("metadata"@) == Some(s.metadata),
        prompt_ir::budget_json(b).field("total"@) == Some(JsonV::Int(b.total as int)),
        prompt_ir::budget_json(b).field("reserve_ratio"@) == Some(JsonV::Float(b.reserve_ratio)),
        prompt_ir::budget_json(b).field("allocation"@) == Some(
            prompt_ir::allocation_json(b.allocation),
        ),
        prompt_ir::strategy_json(c).field("temporal_window"@) == Some(
            JsonV::Int(c.temporal_window as int),
        ),
        prompt_ir::strategy_json(c).field("semantic_limit"@) == Some(
            JsonV::Int(c.semantic_limit as int),
        ),
        prompt_ir::strategy_json(c).field("semantic_threshold"@) == Some(
            JsonV::Float(c.semantic_threshold),
        ),
        prompt_ir::strategy_json(c).field("enabled_backends"@) matches Some(JsonV::Array(l))
            && l.len() == c.enabled_backends.len() && forall|i: int|
            0 <= i < l.len() ==> #[trigger] l[i] == JsonV::Str(c.enabled_backends[i]),
        prompt_ir::call_record(t).field("id"@) == Some(JsonV::Str(t.id)),
        prompt_ir::call_record(t).field("name"@) == Some(JsonV::Str(t.name)),
        prompt_ir::call_record(t).field("arguments"@) == Some(t.arguments),
{
    reveal_strlit("origin");
    reveal_strlit("timing");
    reveal_strlit("metadata");
    reveal_strlit("total");
    reveal_strlit("reserve_ratio");
    reveal_strlit("allocation");
    reveal_strlit("temporal_window");
    reveal_strlit("semantic_limit");
    reveal_strlit("semantic_threshold");
    reveal_strlit("enabled_backends");
    reveal_strlit("id");
    reveal_strlit("name");
    reveal_strlit("arguments");
    assert(mark("origin"@) == (6nat, 'o', 'n', 'g'));
    assert(mark("timing"@) == (6nat, 't', 'g', 'i'));
    assert(mark("metadata"@) == (8nat, 'm', 'a', 'd'));
    assert(mark("total"@) == (5nat, 't', 'l', 't'));
    assert(mark("reserve_ratio"@) == (13nat, 'r', 'o', 'e'));
    assert(mark("allocation"@) == (10nat, 'a', 'n', 'a'));
    assert(mark("temporal_window"@) == (15nat, 't', 'w', 'l'));
    assert(mark("semantic_limit"@) == (14nat, 's', 't', 'c'));
    assert(mark("semantic_threshold"@) == (18nat, 's', 'd', 't'));
    assert(mark("enabled_backends"@) == (16nat, 'e', 's', 'b'));
    assert(mark("id"@) == (2nat, 'i', 'd', 'd'));
    assert(mark("name"@) == (4nat, 'n', 'e', 'm'));
    assert(mark("arguments"@) == (9nat, 'a', 's', 'm'));
    let f = prompt_ir::source_json(s)->Object_0;
    stands_at(f, 0);
    stands_at(f, 1);
    stands_at(f, 2);
    let g = prompt_ir::budget_json(b)->Object_0;
    stands_at(g, 0);
    stands_at(g, 1);
    stands_at(g, 2);
    let h = prompt_ir::strategy_json(c)->Object_0;
    stands_at(h, 0);
    stands_at(h, 1);
    stands_at(h, 2);
    stands_at(h, 3);
    let k = prompt_ir::call_record(t)->Object_0;
    stands_at(k, 0);
    stands_at(k, 1);
    stands_at(k, 2);
}

/// Shares are written under what they are for.
pub proof fn shares_are_written_by_part(a: Seq<char>, b: Seq<char>, c: Seq<char>)
    ensures
        prompt_ir::allocation_json(
            BudgetAllocationV::FixedRatios { system: a, context: b, observation: c },
        ).field("FixedRatios"@) matches Some(v) && v.field("system"@) == Some(JsonV::Float(a))
            && v.field("context"@) == Some(JsonV::Float(b)) && v.field("observation"@) == Some(
            JsonV::Float(c),
        ),
        prompt_ir::allocation_json(BudgetAllocationV::RelevanceWeighted) == JsonV::Str(
            "RelevanceWeighted"@,
        ),
        prompt_ir::allocation_json(BudgetAllocationV::InformationWeighted) == JsonV::Str(
            "InformationWeighted"@,
        ),
{
    reveal_strlit("system");
    reveal_strlit("context");
    reveal_strlit("observation");
    assert(mark("system"@) == (6nat, 's', 'm', 't'));
    assert(mark("context"@) == (7nat, 'c', 't', 't'));
    assert(mark("observation"@) == (11nat, 'o', 'n', 'v'));
    let f = seq![
        ("system"@, JsonV::Float(a)),
        ("context"@, JsonV::Float(b)),
        ("observation"@, JsonV::Float(c)),
    ];
    stands_at(f, 0);
    stands_at(f, 1);
    stands_at(f, 2);
    stands_at(seq![("FixedRatios"@, JsonV::Object(f))], 0);
}

/// What recent turns come from, how sources are searched, and what is taken where
/// nothing is given.
pub proof fn usual_plans_are_fixed()
    ensures
        prompt_ir::mode_of(SourceKind::Temporal) == RetrievalMode::Temporal,
        prompt_ir::mode_of(SourceKind::Semantic) == RetrievalMode::Semantic,
        prompt_ir::mode_of(SourceKind::Knowledge) == RetrievalMode::Semantic,
        prompt_ir::session_source().timing == RetrievalTiming::Passive,
        prompt_ir::session_source().origin matches SectionOriginV::Retrieval {
            backend,
            mode,
            query,
            key,
            score,
        } && backend == "session"@ && mode == RetrievalMode::Temporal && query is None && key
            == Some("temporal:history"@) && score is None,
        prompt_ir::default_budget().total == 8000,
        prompt_ir::default_budget().reserve_ratio == "0.15"@,
        prompt_ir::default_budget().allocation == (BudgetAllocationV::FixedRatios {
            system: "0.7"@,
            context: "0.2"@,
            observation: "0.1"@,
        }),
        prompt_ir::default_strategy().temporal_window == 30,
        prompt_ir::default_strategy().semantic_limit == 10,
        prompt_ir::default_strategy().semantic_threshold == "0.65"@,
        prompt_ir::default_strategy().enabled_backends.len() == 0,
{
}

/// The limits that are kept where none is given.
pub proof fn limits_are_fixed()
    ensures
        crate::ir_agent::RECALL_MAX_BYTES == 16384,
        crate::memory::DEFAULT_MAX_BYTES == 16384,
        crate::memory::SLUG_LENGTH == 48,
        crate::output_contract::DEFAULT_MAX_REPAIRS == 2,
        crate::output_contract::MAX_TRACE_ERRORS == 8,
        prompt_ir::CONTENT_PREVIEW_CHARS == 512,
        provider::MAX_ATTEMPTS == 3,
        crate::public_trace::PUBLIC_SCHEMA_VERSION == 1,
        crate::public_trace::PAYLOAD_PREVIEW_MAX_CHARS == 1024,
        crate::temporal::DEFAULT_MAX_TURNS == 20,
        crate::temporal::DEFAULT_MAX_BYTES == 8192,
        crate::temporal::TURN_PREVIEW_CHARS == 200,
{
}

/// The texts by which things are found again, and those that models and callers are
/// told.
pub proof fn keys_are_fixed()
    ensures
        crate::op::HISTORY_KEY@ == "temporal:history"@,
        crate::output_contract::OUTPUT_CONTRACT_ERROR@ == "output_contract_violation"@,
        crate::output_contract::OUTPUT_CONTRACT_EVENT@ == "output_contract"@,
        crate::output_contract::OUTPUT_VALIDATION_FAILED_EVENT@ == "output_validation_failed"@,
        crate::op::CONTINUE_NUDGE@
            == "Your previous response did not finish the turn. Continue the task: if work remains, issue the next tool call; if the task is complete, say so explicitly."@,
        crate::provider::CONTINUE_NUDGE@
            == "Your previous response was empty. Continue the task: if work remains, issue the next tool call; if the task is complete, say so explicitly."@,
        crate::provider::MALFORMED_TRANSCRIPT@
            == "refusing to send malformed transcript to provider: assistant tool_call is missing a matching tool result; resume from a repaired checkpoint or reset the session"@,
        crate::replay::MISSING_EFFECT_HINT@
            == "effect ids hash (program hash, kind, site, control path, visit), so an edited program or a different branch/loop path diverges here"@,
{
}

/// A reply says that a context did not fit only with the status of a bad request,
/// and then with the code for it or in words about the context and its bounds.
pub proof fn overflows_are_bad_requests(status: u16, s: Seq<char>)
    ensures
        status != 400 ==> !provider::reply_overflows(status, s),
        provider::reply_overflows(400, s) <==> text::occurs_in(
            "context_length_exceeded"@,
            text::ascii_lower_text(s),
        ) || (text::occurs_in("context"@, text::ascii_lower_text(s)) && (text::occurs_in(
            "limit"@,
            text::ascii_lower_text(s),
        ) || text::occurs_in("length"@, text::ascii_lower_text(s)) || text::occurs_in(
            "too long"@,
            text::ascii_lower_text(s),
        ) || text::occurs_in("maximum"@, text::ascii_lower_text(s)))),
{
}

/// Plain values are written as their words, numbers by their digits, texts between
/// quotes.
pub proof fn plain_values_are_written(n: nat, t: Seq<char>)
    ensures
        json::json_text(JsonV::Null) == "null"@,
        json::json_text(JsonV::Bool(true)) == "true"@,
        json::json_text(JsonV::Bool(false)) == "false"@,
        json::json_text(JsonV::Int(n as int)) == text::decimal(n),
        n > 0 ==> json::json_text(JsonV::Int(-(n as int))) =~= seq!['-'] + text::decimal(n),
        json::json_text(JsonV::Float(t)) == t,
        json::json_text(JsonV::Str(Seq::empty())) =~= seq!['"', '"'],
{
}

/// A text is written character by character; quotes, backslashes and control
/// characters behind a backslash, everything else as it is.
pub proof fn texts_are_written_by_character(s: Seq<char>, c: char)
    ensures
        ({
            let before = json::json_text(JsonV::Str(s));
            let after = json::json_text(JsonV::Str(s.push(c)));
            after =~= before.drop_last() + (if c == '"' {
                seq!['\\', '"']
            } else if c == '\\' {
                seq!['\\', '\\']
            } else if c == '\n' {
                seq!['\\', 'n']
            } else if c == '\r' {
                seq!['\\', 'r']
            } else if c == '\t' {
                seq!['\\', 't']
            } else if (c as u32) < 32 {
                json::escaped(c)
            } else {
                seq![c]
            }) + seq!['"']
        }),
        (c as u32) < 32 ==> json::escaped(c)[0] == '\\',
{
    assert(s.push(c).drop_last() =~= s);
    let before = json::string_literal(s);
    assert(before.drop_last() =~= seq!['"'] + json::escaped_text(s));
}

/// Lists stand in brackets and objects in braces, with commas between their parts
/// in their order, and a colon behind each name.
pub proof fn lists_and_objects_are_written(
    items: Seq<JsonV>,
    x: JsonV,
    f: Fields,
    key: Seq<char>,
)
    ensures
        json::json_text(JsonV::Array(Seq::empty())) =~= seq!['[', ']'],
        json::json_text(JsonV::Array(seq![x])) =~= seq!['['] + json::json_text(x) + seq![']'],
        items.len() > 0 ==> json::json_text(JsonV::Array(items.push(x))) =~= json::json_text(
            JsonV::Array(items),
        ).drop_last() + seq![','] + json::json_text(x) + seq![']'],
        json::json_text(JsonV::Object(Seq::empty())) =~= seq!['{', '}'],
        json::json_text(JsonV::Object(seq![(key, x)])) =~= seq!['{'] + json::json_text(
            JsonV::Str(key),
        ) + seq![':'] + json::json_text(x) + seq!['}'],
        f.len() > 0 ==> json::json_text(JsonV::Object(f.push((key, x)))) =~= json::json_text(
            JsonV::Object(f),
        ).drop_last() + seq![','] + json::json_text(JsonV::Str(key)) + seq![':'] + json::json_text(x)
            + seq!['}'],
{
    let one = seq![x];
    assert(one.drop_last() =~= Seq::empty());
    assert(json::items_text(Seq::empty()) =~= Seq::empty());
    assert(json::items_text(one) =~= json::json_text(x));
    assert(items.push(x).drop_last() =~= items);
    let field = seq![(key, x)];
    assert(field.drop_last() =~= Seq::empty());
    assert(json::fields_text(Seq::empty()) =~= Seq::empty());
    assert(json::fields_text(field) =~= json::string_literal(key).push(':') + json::json_text(x));
    assert(f.push((key, x)).drop_last() =~= f);
}

/// A number is read where it fits, and nothing is read as what it is not.
pub proof fn values_are_read_by_kind(v: JsonV, n: int, s: Seq<char>)
    ensures
        i64::MIN <= n <= i64::MAX <==> JsonV::Int(n).as_i64() == Some(n),
        0 <= n <= u64::MAX <==> JsonV::Int(n).as_u64() == Some(n),
        !(i64::MIN <= n <= i64::MAX) ==> JsonV::Int(n).as_i64() is None,
        n < 0 ==> JsonV::Int(n).as_u64() is None,
        JsonV::Str(s).as_text() == Some(s),
        JsonV::Bool(true).as_bool() == Some(true),
        JsonV::Bool(false).as_bool() == Some(false),
        !(v is Str) ==> v.as_text() is None,
        !(v is Bool) ==> v.as_bool() is None,
        !(v is Int) ==> v.as_i64() is None && v.as_u64() is None,
        !(v is Array) ==> v.as_items() is None,
        v matches JsonV::Array(l) ==> v.as_items() == Some(l),
{
}

/// Arguments that are JSON are read as that, and all others are kept as a text
/// under a name of their own.
pub proof fn arguments_are_read_or_kept(s: Seq<char>)
    ensures
        json::parsed(s) matches Ok(v) ==> codec::decoded_arguments(s) == v,
        json::parsed(s) is Err ==> codec::decoded_arguments(s).field("raw"@) == Some(JsonV::Str(s)),
{
    let f = seq![("raw"@, JsonV::Str(s))];
    crate::message_laws::listed_fields_read(f, 0);
}

/// A result that is referred to is quoted to the model with the call and the tool
/// that it came from.
pub proof fn results_are_quoted_with_their_call(id: Seq<char>, name: Seq<char>, content: Seq<char>)
    ensures
        eval::quoted_result(id, name, content).field("role"@) == Some(JsonV::Str("user"@)),
        eval::quoted_result(id, name, content).field("content"@) == Some(
            JsonV::Str(
                "Referenced result of tool call "@ + id + " ("@ + name + "):\n"@ + content,
            ),
        ),
{
    reveal_strlit("role");
    reveal_strlit("content");
    assert(mark("role"@) == (4nat, 'r', 'e', 'l'));
    assert(mark("content"@) == (7nat, 'c', 't', 't'));
    let f = seq![
        ("role"@, JsonV::Str("user"@)),
        (
            "content"@,
            JsonV::Str("Referenced result of tool call "@ + id + " ("@ + name + "):\n"@ + content),
        ),
    ];
    crate::message_laws::listed_fields_read(f, 0);
    crate::message_laws::listed_fields_read(f, 1);
}

/// A reference to a result that is there adds it to the quoted ones; to one that
/// is not, to the missing ones; and a second reference to the same adds nothing.
pub proof fn references_are_settled_once(history: Seq<JsonV>, s: Selected, id: Seq<char>)
    ensures
        ({
            let t = eval::select_one(history, s, JsonV::Str(id));
            &&& s.seen.contains(id) ==> t == s
            &&& !s.seen.contains(id) ==> t.seen == s.seen.push(id)
            &&& !s.seen.contains(id) && eval::tool_content(history, id) is None ==> t.missing
                == s.missing.push(JsonV::Str(id)) && t.messages == s.messages
            &&& !s.seen.contains(id) ==> (eval::tool_content(history, id) matches Some(c)
                ==> t.missing == s.missing && t.messages.len() == s.messages.len() + 1
                && s.messages.is_prefix_of(t.messages) && (eval::tool_name(history, id) matches Some(
                n,
            ) ==> t.messages.last() == eval::quoted_result(id, n, c)) && (eval::tool_name(
                history,
                id,
            ) is None ==> t.messages.last() == eval::quoted_result(id, "unknown"@, c)))
        }),
{
    let t = eval::select_one(history, s, JsonV::Str(id));
    assert(t.messages.subrange(0, s.messages.len() as int) =~= s.messages);
}

/// What is said of a value that cannot be computed names the part that it was
/// needed for and the value that was there.
pub proof fn evaluation_errors_are_told(
    v: Seq<char>,
    label: Seq<char>,
    value: JsonV,
    other: JsonV,
    n: int,
)
    ensures
        eval::eval_error_text(EvalErrorV::UnknownVar(v)) == "unknown AgentIR var Var("@
            + text::quoted(v) + ")"@,
        eval::eval_error_text(EvalErrorV::FieldNotFound { field: v, value }) == "AgentIR field "@
            + text::quoted(v) + " not found on "@ + json::json_text(value),
        eval::eval_error_text(EvalErrorV::IndexNotFound { index: n, value }) == "AgentIR index "@
            + text::decimal_int(n) + " not found on "@ + json::json_text(value),
        eval::eval_error_text(EvalErrorV::NotSized { label, value }) == "AgentIR "@ + label
            + " expected array or string, got "@ + json::json_text(value),
        eval::eval_error_text(EvalErrorV::NotBool { label, value }) == "AgentIR "@ + label
            + " must be bool, got "@ + json::json_text(value),
        eval::eval_error_text(EvalErrorV::NotString { label, value }) == "AgentIR "@ + label
            + " must be string, got "@ + json::json_text(value),
        eval::eval_error_text(EvalErrorV::NotNumber { label, value }) == "AgentIR "@ + label
            + " must be number, got "@ + json::json_text(value),
        eval::eval_error_text(EvalErrorV::NotI64 { label, value }) == "AgentIR "@ + label
            + " must be i64-compatible, got "@ + json::json_text(value),
        eval::eval_error_text(EvalErrorV::Negative { label, number: n }) == "AgentIR "@ + label
            + " must be non-negative, got "@ + text::decimal_int(n),
        eval::eval_error_text(EvalErrorV::NotArray { label, value }) == "AgentIR "@ + label
            + " expected array, got "@ + json::json_text(value),
        eval::eval_error_text(EvalErrorV::NotTwoArrays { left: value, right: other })
            == "AgentIR Concat expected two arrays, got "@ + json::json_text(value) + " and "@
            + json::json_text(other),
        eval::eval_error_text(EvalErrorV::NotJson(v)) == "AgentIR JsonParse failed: "@ + v,
{
}

/// What is said of a run that cannot go on names what stood in its way.
pub proof fn run_errors_are_told(v: Seq<char>, value: JsonV, e: EvalErrorV)
    ensures
        machine::run_error_text(RunErrorV::Eval(e)) == eval::eval_error_text(e),
        machine::run_error_text(RunErrorV::IfNotBool(value))
            == "AgentIR If condition must be bool, got "@ + json::json_text(value),
        machine::run_error_text(RunErrorV::NoArm(value))
            == "AgentIR Match had no matching arm and no default for "@ + json::json_text(value),
        machine::run_error_text(RunErrorV::UnknownPromptVar(v)) =~= "unknown AgentIR prompt var "@
            + ("Var("@ + text::quoted(v) + ")"@),
        machine::run_error_text(RunErrorV::UnknownPromptIrVar(v))
            =~= "unknown AgentIR PromptIR var "@ + ("Var("@ + text::quoted(v) + ")"@),
        machine::run_error_text(RunErrorV::Effect(v)) == v,
{
}

} // verus!
