//! What the public view of an event says of the event.
use crate::codec;
use crate::effect::EffectLocationV;
use crate::json;
use crate::json::JsonV;
use crate::naming;
use crate::naming::mark;
use crate::public_trace;
use crate::public_trace::PublicStatus;
use crate::trace::{EventV, Pricing};
use vstd::prelude::*;

verus! {

/// The names of the attributes tell themselves apart.
proof fn attribute_names()
    ensures
        mark("argv"@) == (4nat, 'a', 'v', 'g'),
        mark("attempt"@) == (7nat, 'a', 't', 'e'),
        mark("bytes"@) == (5nat, 'b', 's', 't'),
        mark("cached_input_tokens"@) == (19nat, 'c', 's', 'p'),
        mark("command"@) == (7nat, 'c', 'd', 'm'),
        mark("content_hash"@) == (12nat, 'c', 'h', 't'),
        mark("cost_micro_usd"@) == (14nat, 'c', 'd', 'c'),
        mark("cwd"@) == (3nat, 'c', 'd', 'w'),
        mark("decision"@) == (8nat, 'd', 'n', 's'),
        mark("duration_ms"@) == (11nat, 'd', 's', 'i'),
        mark("effect_id"@) == (9nat, 'e', 'd', 'c'),
        mark("env_policy"@) == (10nat, 'e', 'y', 'o'),
        mark("errors"@) == (6nat, 'e', 's', 'o'),
        mark("exit_code"@) == (9nat, 'e', 'e', '_'),
        mark("failed_infer_calls"@) == (18nat, 'f', 's', 'f'),
        mark("infer_calls"@) == (11nat, 'i', 's', '_'),
        mark("input_tokens"@) == (12nat, 'i', 's', 't'),
        mark("kind"@) == (4nat, 'k', 'd', 'n'),
        mark("max_bytes"@) == (9nat, 'm', 's', 'b'),
        mark("model"@) == (5nat, 'm', 'l', 'd'),
        mark("name"@) == (4nat, 'n', 'e', 'm'),
        mark("ok"@) == (2nat, 'o', 'k', 'k'),
        mark("output_tokens"@) == (13nat, 'o', 's', '_'),
        mark("pending_id"@) == (10nat, 'p', 'd', 'n'),
        mark("pricing"@) == (7nat, 'p', 'g', 'c'),
        mark("reason"@) == (6nat, 'r', 'n', 's'),
        mark("resolved_by"@) == (11nat, 'r', 'y', 'v'),
        mark("sink"@) == (4nat, 's', 'k', 'n'),
        mark("sink_id"@) == (7nat, 's', 'd', 'k'),
        mark("source_count"@) == (12nat, 's', 't', '_'),
        mark("store_id"@) == (8nat, 's', 'd', 'e'),
        mark("store_op"@) == (8nat, 's', 'p', 'e'),
        mark("timed_out"@) == (9nat, 't', 't', 'd'),
        mark("timeout_ms"@) == (10nat, 't', 's', 'u'),
        mark("total_tokens"@) == (12nat, 't', 's', 't'),
        mark("truncated_stderr"@) == (16nat, 't', 'r', 'd'),
        mark("truncated_stdout"@) == (16nat, 't', 't', 'd'),
        mark("uncosted_infer_calls"@) == (20nat, 'u', 's', 'n'),
{
    reveal_strlit("argv");
    reveal_strlit("attempt");
    reveal_strlit("bytes");
    reveal_strlit("cached_input_tokens");
    reveal_strlit("command");
    reveal_strlit("content_hash");
    reveal_strlit("cost_micro_usd");
    reveal_strlit("cwd");
    reveal_strlit("decision");
    reveal_strlit("duration_ms");
    reveal_strlit("effect_id");
    reveal_strlit("env_policy");
    reveal_strlit("errors");
    reveal_strlit("exit_code");
    reveal_strlit("failed_infer_calls");
    reveal_strlit("infer_calls");
    reveal_strlit("input_tokens");
    reveal_strlit("kind");
    reveal_strlit("max_bytes");
    reveal_strlit("model");
    reveal_strlit("name");
    reveal_strlit("ok");
    reveal_strlit("output_tokens");
    reveal_strlit("pending_id");
    reveal_strlit("pricing");
    reveal_strlit("reason");
    reveal_strlit("resolved_by");
    reveal_strlit("sink");
    reveal_strlit("sink_id");
    reveal_strlit("source_count");
    reveal_strlit("store_id");
    reveal_strlit("store_op");
    reveal_strlit("timed_out");
    reveal_strlit("timeout_ms");
    reveal_strlit("total_tokens");
    reveal_strlit("truncated_stderr");
    reveal_strlit("truncated_stdout");
    reveal_strlit("uncosted_infer_calls");
}

/// An optional number as an attribute.
pub open spec fn number_or_nothing(n: Option<u64>) -> Option<JsonV> {
    if n is Some {
        Some(JsonV::Int(n->0 as int))
    } else {
        None
    }
}

/// An optional text as an attribute.
pub open spec fn text_or_nothing(s: Option<Seq<char>>) -> Option<JsonV> {
    if s is Some {
        Some(JsonV::Str(s->0))
    } else {
        None
    }
}

/// A started inference names its model and shows the start of its prompt.
pub proof fn started_inferences_name_their_model(e: EventV)
    requires
        e is InferCall,
    ensures
        ({
            let p = public_trace::published(e)->0;
            let a = p.attrs;
            &&& public_trace::published(e) is Some
            &&& p.event == "infer.started"@
            &&& p.status == PublicStatus::Started
            &&& p.run_id == e->InferCall_run_id
            &&& p.session_id == e->InferCall_run_id
            &&& p.ts == e->InferCall_timestamp
            &&& p.op_id == Some(e->InferCall_op_id)
            &&& p.parent_op_id == e->InferCall_parent_op_id
            &&& p.payload_preview == if e->InferCall_prompt_preview.len() == 0 {
                None
            } else {
                Some(e->InferCall_prompt_preview)
            }
            &&& json::lookup(a, "model"@) == Some(JsonV::Str(e->InferCall_model))
        }),
{
    broadcast use naming::group_naming;

    attribute_names();
}

/// A completed inference carries its figures under their own names: what went in,
/// what came out, both together, what was cached, what it cost, under which
/// prices, and how long it took; a figure that is not known is left out.
pub proof fn completed_inferences_keep_their_figures(e: EventV)
    requires
        e is InferResult,
    ensures
        ({
            let p = public_trace::published(e)->0;
            let a = p.attrs;
            &&& public_trace::published(e) is Some
            &&& p.event == "infer.completed"@
            &&& p.status == PublicStatus::Completed
            &&& p.run_id == e->InferResult_run_id
            &&& p.session_id == e->InferResult_run_id
            &&& p.ts == e->InferResult_timestamp
            &&& p.op_id == Some(e->InferResult_op_id)
            &&& p.parent_op_id == e->InferResult_parent_op_id
            &&& p.payload_preview == if e->InferResult_response_preview.len() == 0 {
                None
            } else {
                Some(e->InferResult_response_preview)
            }
            &&& json::lookup(a, "input_tokens"@) == Some(JsonV::Int(e->InferResult_input_tokens as int))
            &&& json::lookup(a, "output_tokens"@) == Some(JsonV::Int(e->InferResult_output_tokens as int))
            &&& json::lookup(a, "total_tokens"@) == Some(JsonV::Int(e->InferResult_total_tokens as int))
            &&& json::lookup(a, "duration_ms"@) == Some(JsonV::Int(e->InferResult_duration_ms as int))
            &&& json::lookup(a, "cost_micro_usd"@) == number_or_nothing(e->InferResult_cost_micro_usd)
            &&& json::lookup(a, "cached_input_tokens"@) == if e->InferResult_cached_input_tokens is Some {
                Some(JsonV::Int(e->InferResult_cached_input_tokens->0 as int))
            } else {
                None
            }
            &&& json::lookup(a, "pricing"@) == if e->InferResult_pricing is Some {
                Some(codec::pricing_json(e->InferResult_pricing->0))
            } else {
                None
            }
        }),
{
    broadcast use naming::group_naming;

    attribute_names();
}

/// A failed inference tells its error and how long it took.
pub proof fn failed_inferences_tell_their_error(e: EventV)
    requires
        e is InferError,
    ensures
        ({
            let p = public_trace::published(e)->0;
            let a = p.attrs;
            &&& public_trace::published(e) is Some
            &&& p.event == "infer.failed"@
            &&& p.status == PublicStatus::Failed
            &&& p.run_id == e->InferError_run_id
            &&& p.session_id == e->InferError_run_id
            &&& p.ts == e->InferError_timestamp
            &&& p.op_id == Some(e->InferError_op_id)
            &&& p.parent_op_id == e->InferError_parent_op_id
            &&& p.error == Some(e->InferError_error)
            &&& json::lookup(a, "duration_ms"@) == Some(JsonV::Int(e->InferError_duration_ms as int))
        }),
{
    broadcast use naming::group_naming;

    attribute_names();
}

/// A failed retrieval tells its error and how long it took.
pub proof fn failed_retrievals_tell_their_error(e: EventV)
    requires
        e is RetrieveError,
    ensures
        ({
            let p = public_trace::published(e)->0;
            let a = p.attrs;
            &&& public_trace::published(e) is Some
            &&& p.event == "retrieve.failed"@
            &&& p.status == PublicStatus::Failed
            &&& p.run_id == e->RetrieveError_run_id
            &&& p.session_id == e->RetrieveError_run_id
            &&& p.ts == e->RetrieveError_timestamp
            &&& p.op_id == Some(e->RetrieveError_op_id)
            &&& p.parent_op_id == e->RetrieveError_parent_op_id
            &&& p.error == Some(e->RetrieveError_error)
            &&& json::lookup(a, "duration_ms"@) == Some(JsonV::Int(e->RetrieveError_duration_ms as int))
        }),
{
    broadcast use naming::group_naming;

    attribute_names();
}

/// A started command is shown, with where and how it runs and how long it may.
pub proof fn started_commands_are_shown(e: EventV)
    requires
        e is EvalCall,
    ensures
        ({
            let p = public_trace::published(e)->0;
            let a = p.attrs;
            &&& public_trace::published(e) is Some
            &&& p.event == "eval.started"@
            &&& p.status == PublicStatus::Started
            &&& p.run_id == e->EvalCall_run_id
            &&& p.session_id == e->EvalCall_run_id
            &&& p.ts == e->EvalCall_timestamp
            &&& p.op_id == Some(e->EvalCall_op_id)
            &&& p.parent_op_id == e->EvalCall_parent_op_id
            &&& p.payload_preview == if e->EvalCall_command.len() == 0 {
                None
            } else {
                Some(e->EvalCall_command)
            }
            &&& json::lookup(a, "argv"@) is Some <==> e->EvalCall_argv is Some
            &&& json::lookup(a, "env_policy"@) == Some(JsonV::Str(e->EvalCall_env_policy))
            &&& json::lookup(a, "timeout_ms"@) == Some(JsonV::Int(e->EvalCall_timeout_ms as int))
            &&& json::lookup(a, "cwd"@) == text_or_nothing(e->EvalCall_cwd)
        }),
{
    broadcast use naming::group_naming;

    attribute_names();
}

/// A completed command tells how it ended under the names of its result, and
/// which of its outputs was cut.
pub proof fn completed_commands_tell_how_they_ended(e: EventV)
    requires
        e is EvalResult,
    ensures
        ({
            let p = public_trace::published(e)->0;
            let a = p.attrs;
            &&& public_trace::published(e) is Some
            &&& p.event == "eval.completed"@
            &&& p.status == PublicStatus::Completed
            &&& p.run_id == e->EvalResult_run_id
            &&& p.session_id == e->EvalResult_run_id
            &&& p.ts == e->EvalResult_timestamp
            &&& p.op_id == Some(e->EvalResult_op_id)
            &&& p.parent_op_id == e->EvalResult_parent_op_id
            &&& json::lookup(a, "command"@) == Some(JsonV::Str(e->EvalResult_command))
            &&& json::lookup(a, "duration_ms"@) == Some(JsonV::Int(e->EvalResult_duration_ms as int))
            &&& json::lookup(a, "truncated_stdout"@) == Some(JsonV::Bool(e->EvalResult_truncated_stdout))
            &&& json::lookup(a, "truncated_stderr"@) == Some(JsonV::Bool(e->EvalResult_truncated_stderr))
            &&& json::lookup(a, "ok"@) == truth_at(e->EvalResult_result, "ok"@)
            &&& json::lookup(a, "timed_out"@) == truth_at(e->EvalResult_result, "timed_out"@)
            &&& json::lookup(a, "exit_code"@) == whole_at(e->EvalResult_result, "status"@)
        }),
{
    broadcast use naming::group_naming;

    attribute_names();
}

/// A failed command tells its error and how long it took.
pub proof fn failed_commands_tell_their_error(e: EventV)
    requires
        e is EvalError,
    ensures
        ({
            let p = public_trace::published(e)->0;
            let a = p.attrs;
            &&& public_trace::published(e) is Some
            &&& p.event == "eval.failed"@
            &&& p.status == PublicStatus::Failed
            &&& p.run_id == e->EvalError_run_id
            &&& p.session_id == e->EvalError_run_id
            &&& p.ts == e->EvalError_timestamp
            &&& p.op_id == Some(e->EvalError_op_id)
            &&& p.parent_op_id == e->EvalError_parent_op_id
            &&& p.error == Some(e->EvalError_error)
            &&& json::lookup(a, "command"@) == Some(JsonV::Str(e->EvalError_command))
            &&& json::lookup(a, "duration_ms"@) == Some(JsonV::Int(e->EvalError_duration_ms as int))
        }),
{
    broadcast use naming::group_naming;

    attribute_names();
}

/// A started retrieval shows what is asked for, and within which bounds.
pub proof fn started_retrievals_show_their_query(e: EventV)
    requires
        e is RetrieveCall,
    ensures
        ({
            let p = public_trace::published(e)->0;
            let a = p.attrs;
            &&& public_trace::published(e) is Some
            &&& p.event == "retrieve.started"@
            &&& p.status == PublicStatus::Started
            &&& p.run_id == e->RetrieveCall_run_id
            &&& p.session_id == e->RetrieveCall_run_id
            &&& p.ts == e->RetrieveCall_timestamp
            &&& p.op_id == Some(e->RetrieveCall_op_id)
            &&& p.parent_op_id == e->RetrieveCall_parent_op_id
            &&& p.payload_preview == if e->RetrieveCall_query.len() == 0 {
                None
            } else {
                Some(e->RetrieveCall_query)
            }
            &&& json::lookup(a, "kind"@) == text_or_nothing(e->RetrieveCall_kind)
            &&& json::lookup(a, "max_bytes"@) == if e->RetrieveCall_max_bytes is Some {
                Some(JsonV::Int(e->RetrieveCall_max_bytes->0 as int))
            } else {
                None
            }
        }),
{
    broadcast use naming::group_naming;

    attribute_names();
}

/// A completed retrieval tells how much came from how many sources.
pub proof fn completed_retrievals_keep_their_figures(e: EventV)
    requires
        e is RetrieveResult,
    ensures
        ({
            let p = public_trace::published(e)->0;
            let a = p.attrs;
            &&& public_trace::published(e) is Some
            &&& p.event == "retrieve.completed"@
            &&& p.status == PublicStatus::Completed
            &&& p.run_id == e->RetrieveResult_run_id
            &&& p.session_id == e->RetrieveResult_run_id
            &&& p.ts == e->RetrieveResult_timestamp
            &&& p.op_id == Some(e->RetrieveResult_op_id)
            &&& p.parent_op_id == e->RetrieveResult_parent_op_id
            &&& p.payload_preview == if e->RetrieveResult_result_preview.len() == 0 {
                None
            } else {
                Some(e->RetrieveResult_result_preview)
            }
            &&& json::lookup(a, "bytes"@) == Some(JsonV::Int(e->RetrieveResult_bytes as int))
            &&& json::lookup(a, "source_count"@) == Some(JsonV::Int(e->RetrieveResult_source_count as int))
            &&& json::lookup(a, "duration_ms"@) == Some(JsonV::Int(e->RetrieveResult_duration_ms as int))
        }),
{
    broadcast use naming::group_naming;

    attribute_names();
}

/// A started write tells where it goes, what it does and what it holds.
pub proof fn started_writes_tell_where_they_go(e: EventV)
    requires
        e is StoreCall,
    ensures
        ({
            let p = public_trace::published(e)->0;
            let a = p.attrs;
            &&& public_trace::published(e) is Some
            &&& p.event == "store.started"@
            &&& p.status == PublicStatus::Started
            &&& p.run_id == e->StoreCall_run_id
            &&& p.session_id == e->StoreCall_run_id
            &&& p.ts == e->StoreCall_timestamp
            &&& p.op_id == Some(e->StoreCall_op_id)
            &&& p.parent_op_id == e->StoreCall_parent_op_id
            &&& p.payload_preview == if e->StoreCall_item_preview.len() == 0 {
                None
            } else {
                Some(e->StoreCall_item_preview)
            }
            &&& json::lookup(a, "content_hash"@) == Some(JsonV::Str(e->StoreCall_content_hash))
            &&& json::lookup(a, "sink"@) == Some(JsonV::Str(e->StoreCall_sink))
            &&& json::lookup(a, "store_op"@) == Some(JsonV::Str(e->StoreCall_store_op))
            &&& json::lookup(a, "store_id"@) == text_or_nothing(e->StoreCall_store_id)
        }),
{
    broadcast use naming::group_naming;

    attribute_names();
}

/// A completed write tells where it went and under which id.
pub proof fn completed_writes_tell_their_id(e: EventV)
    requires
        e is StoreResult,
    ensures
        ({
            let p = public_trace::published(e)->0;
            let a = p.attrs;
            &&& public_trace::published(e) is Some
            &&& p.event == "store.completed"@
            &&& p.status == PublicStatus::Completed
            &&& p.run_id == e->StoreResult_run_id
            &&& p.session_id == e->StoreResult_run_id
            &&& p.ts == e->StoreResult_timestamp
            &&& p.op_id == Some(e->StoreResult_op_id)
            &&& p.parent_op_id == e->StoreResult_parent_op_id
            &&& json::lookup(a, "sink"@) == Some(JsonV::Str(e->StoreResult_sink))
            &&& json::lookup(a, "sink_id"@) == Some(JsonV::Str(e->StoreResult_sink_id))
            &&& json::lookup(a, "duration_ms"@) == Some(JsonV::Int(e->StoreResult_duration_ms as int))
        }),
{
    broadcast use naming::group_naming;

    attribute_names();
}

/// A failed write tells its error and where it was to go.
pub proof fn failed_writes_tell_their_error(e: EventV)
    requires
        e is StoreError,
    ensures
        ({
            let p = public_trace::published(e)->0;
            let a = p.attrs;
            &&& public_trace::published(e) is Some
            &&& p.event == "store.failed"@
            &&& p.status == PublicStatus::Failed
            &&& p.run_id == e->StoreError_run_id
            &&& p.session_id == e->StoreError_run_id
            &&& p.ts == e->StoreError_timestamp
            &&& p.op_id == Some(e->StoreError_op_id)
            &&& p.parent_op_id == e->StoreError_parent_op_id
            &&& p.error == Some(e->StoreError_error)
            &&& json::lookup(a, "sink"@) == Some(JsonV::Str(e->StoreError_sink))
            &&& json::lookup(a, "duration_ms"@) == Some(JsonV::Int(e->StoreError_duration_ms as int))
        }),
{
    broadcast use naming::group_naming;

    attribute_names();
}

/// A requested tool is named, with the start of its arguments.
pub proof fn requested_tools_are_named(e: EventV)
    requires
        e is ToolCall,
    ensures
        ({
            let p = public_trace::published(e)->0;
            let a = p.attrs;
            &&& public_trace::published(e) is Some
            &&& p.event == "tool.requested"@
            &&& p.status == PublicStatus::Started
            &&& p.run_id == e->ToolCall_run_id
            &&& p.session_id == e->ToolCall_run_id
            &&& p.ts == e->ToolCall_timestamp
            &&& p.op_id == Some(e->ToolCall_op_id)
            &&& p.parent_op_id == e->ToolCall_parent_op_id
            &&& p.payload_preview matches Some(s) && s.is_prefix_of(json::json_text(e->ToolCall_arguments))
            &&& json::lookup(a, "name"@) == Some(JsonV::Str(e->ToolCall_name))
        }),
{
    broadcast use naming::group_naming;

    attribute_names();
}

/// A completed tool is named, with the start of its result.
pub proof fn completed_tools_are_named(e: EventV)
    requires
        e is ToolResult,
    ensures
        ({
            let p = public_trace::published(e)->0;
            let a = p.attrs;
            &&& public_trace::published(e) is Some
            &&& p.event == "tool.completed"@
            &&& p.status == PublicStatus::Completed
            &&& p.run_id == e->ToolResult_run_id
            &&& p.session_id == e->ToolResult_run_id
            &&& p.ts == e->ToolResult_timestamp
            &&& p.op_id == Some(e->ToolResult_op_id)
            &&& p.parent_op_id == e->ToolResult_parent_op_id
            &&& p.payload_preview == if e->ToolResult_result_preview.len() == 0 {
                None
            } else {
                Some(e->ToolResult_result_preview)
            }
            &&& json::lookup(a, "name"@) == Some(JsonV::Str(e->ToolResult_name))
            &&& json::lookup(a, "duration_ms"@) == Some(JsonV::Int(e->ToolResult_duration_ms as int))
        }),
{
    broadcast use naming::group_naming;

    attribute_names();
}

/// A failed tool is named and tells its error.
pub proof fn failed_tools_tell_their_error(e: EventV)
    requires
        e is ToolError,
    ensures
        ({
            let p = public_trace::published(e)->0;
            let a = p.attrs;
            &&& public_trace::published(e) is Some
            &&& p.event == "tool.failed"@
            &&& p.status == PublicStatus::Failed
            &&& p.run_id == e->ToolError_run_id
            &&& p.session_id == e->ToolError_run_id
            &&& p.ts == e->ToolError_timestamp
            &&& p.op_id == Some(e->ToolError_op_id)
            &&& p.parent_op_id == e->ToolError_parent_op_id
            &&& p.error == Some(e->ToolError_error)
            &&& json::lookup(a, "name"@) == Some(JsonV::Str(e->ToolError_name))
            &&& json::lookup(a, "duration_ms"@) == Some(JsonV::Int(e->ToolError_duration_ms as int))
        }),
{
    broadcast use naming::group_naming;

    attribute_names();
}

/// A requested approval tells what waits, under which id, and for which effect.
pub proof fn requested_approvals_tell_what_waits(e: EventV)
    requires
        e is ApprovalRequested,
    ensures
        ({
            let p = public_trace::published(e)->0;
            let a = p.attrs;
            &&& public_trace::published(e) is Some
            &&& p.event == "approval.requested"@
            &&& p.status == PublicStatus::Started
            &&& p.run_id == e->ApprovalRequested_run_id
            &&& p.session_id == e->ApprovalRequested_run_id
            &&& p.ts == e->ApprovalRequested_timestamp
            &&& p.op_id is None
            &&& p.parent_op_id is None
            &&& p.effect is Some && (p.effect->0).effect_id == e->ApprovalRequested_effect.effect_id
            &&& json::lookup(a, "kind"@) == Some(JsonV::Str(e->ApprovalRequested_kind))
            &&& json::lookup(a, "pending_id"@) == Some(JsonV::Str(e->ApprovalRequested_pending_id))
        }),
{
    broadcast use naming::group_naming;

    attribute_names();
}

/// A resolved approval tells what was decided, by whom and why.
pub proof fn resolved_approvals_tell_the_decision(e: EventV)
    requires
        e is ApprovalResolved,
    ensures
        ({
            let p = public_trace::published(e)->0;
            let a = p.attrs;
            &&& public_trace::published(e) is Some
            &&& p.event == "approval.resolved"@
            &&& p.status == PublicStatus::Completed
            &&& p.run_id == e->ApprovalResolved_run_id
            &&& p.session_id == e->ApprovalResolved_run_id
            &&& p.ts == e->ApprovalResolved_timestamp
            &&& p.op_id is None
            &&& p.parent_op_id is None
            &&& json::lookup(a, "decision"@) == Some(JsonV::Str(e->ApprovalResolved_decision))
            &&& json::lookup(a, "effect_id"@) == Some(JsonV::Str(e->ApprovalResolved_effect_id))
            &&& json::lookup(a, "kind"@) == Some(JsonV::Str(e->ApprovalResolved_kind))
            &&& json::lookup(a, "pending_id"@) == Some(JsonV::Str(e->ApprovalResolved_pending_id))
            &&& json::lookup(a, "reason"@) == text_or_nothing(e->ApprovalResolved_reason)
            &&& json::lookup(a, "resolved_by"@) == text_or_nothing(e->ApprovalResolved_resolved_by)
        }),
{
    broadcast use naming::group_naming;

    attribute_names();
}

/// A completed run carries what it used in all under the names of the figures; a
/// run that used nothing carries none.
pub proof fn completed_runs_keep_their_figures(e: EventV)
    requires
        e is AgentDone,
    ensures
        ({
            let p = public_trace::published(e)->0;
            let a = p.attrs;
            &&& public_trace::published(e) is Some
            &&& p.event == "run.completed"@
            &&& p.status == PublicStatus::Completed
            &&& p.run_id == e->AgentDone_run_id
            &&& p.session_id == e->AgentDone_run_id
            &&& p.ts == e->AgentDone_timestamp
            &&& p.op_id is None
            &&& p.parent_op_id is None
            &&& e->AgentDone_usage is None ==> a.len() == 0
            &&& e->AgentDone_usage matches Some(u) ==> json::lookup(a, "infer_calls"@) == Some(JsonV::Int(u.infer_calls as int))
            &&& e->AgentDone_usage matches Some(u) ==> json::lookup(a, "input_tokens"@) == Some(JsonV::Int(u.input_tokens as int))
            &&& e->AgentDone_usage matches Some(u) ==> json::lookup(a, "output_tokens"@) == Some(JsonV::Int(u.output_tokens as int))
            &&& e->AgentDone_usage matches Some(u) ==> json::lookup(a, "total_tokens"@) == Some(JsonV::Int(u.total_tokens as int))
            &&& e->AgentDone_usage matches Some(u) ==> json::lookup(a, "uncosted_infer_calls"@) == Some(JsonV::Int(u.uncosted_infer_calls as int))
            &&& e->AgentDone_usage matches Some(u) ==> json::lookup(a, "cached_input_tokens"@) == number_or_nothing(u.cached_input_tokens)
            &&& e->AgentDone_usage matches Some(u) ==> json::lookup(a, "cost_micro_usd"@) == number_or_nothing(u.cost_micro_usd)
            &&& e->AgentDone_usage matches Some(u) ==> json::lookup(a, "failed_infer_calls"@) == if u.failed_infer_calls == 0 {
                None
            } else {
                Some(JsonV::Int(u.failed_infer_calls as int))
            }
        }),
{
    broadcast use naming::group_naming;

    attribute_names();
}

/// A truth value under a name.
pub open spec fn truth_at(v: JsonV, key: Seq<char>) -> Option<JsonV> {
    if v.field(key) is Some && (v.field(key)->0) is Bool {
        v.field(key)
    } else {
        None
    }
}

/// A whole number of moderate size under a name.
pub open spec fn whole_at(v: JsonV, key: Seq<char>) -> Option<JsonV> {
    if v.field(key) matches Some(JsonV::Int(n)) && i64::MIN <= n <= i64::MAX {
        v.field(key)
    } else {
        None
    }
}

/// A failed validation is the one event of a program's own that is public; it
/// tells the first error, all errors and which attempt it was.
pub proof fn failed_validations_are_public(e: EventV)
    requires
        e is Custom,
    ensures
        public_trace::published(e) is Some <==> e->Custom_name == "output_validation_failed"@,
        public_trace::published(e) matches Some(p) ==> {
            &&& p.event == "output.validation_failed"@
            &&& p.status == PublicStatus::Failed
            &&& p.run_id == e->Custom_run_id
            &&& p.ts == e->Custom_timestamp
            &&& json::lookup(p.attrs, "attempt"@) == e->Custom_data.field("attempt"@)
            &&& json::lookup(p.attrs, "errors"@) == e->Custom_data.field("errors"@)
            &&& e->Custom_data.field("errors"@) matches Some(JsonV::Array(l)) ==> (l.len() > 0
                && l[0] is Str ==> p.error == Some(l[0]->Str_0))
            &&& e->Custom_data.field("preview"@) matches Some(JsonV::Str(s)) ==> (s.len() > 0
                ==> p.payload_preview == Some(s))
        },
{
    broadcast use naming::group_naming;

    attribute_names();
}

/// What belongs to the inside of a run is not public.
pub proof fn inner_events_stay_inside(e: EventV)
    ensures
        e is HydrationStart || e is HydrationSection || e is HydrationEnd || e is ParStart || e is ParEnd
            || e is Checkpoint || e is TurnBudgetExhausted ==> public_trace::published(e) is None,
{
}

/// The public identity of an effect is the identity of the effect.
pub proof fn public_identities_are_kept(l: EffectLocationV)
    ensures
        ({
            let p = public_trace::public_effect(l);
            &&& p.effect_id == l.effect_id
            &&& p.program_hash == l.program_hash
            &&& p.site.block == l.site.block.0
            &&& p.site.instruction_index == l.site.instruction_index
            &&& p.dynamic_path.path == l.dynamic_path.path
            &&& p.dynamic_path.transitions == l.dynamic_path.transitions
            &&& p.dynamic_path.visit == l.dynamic_path.visit
        }),
{
}

/// An effect that is started carries its identity into the public.
pub proof fn started_effects_carry_their_identity(e: EventV)
    ensures
        e matches EventV::InferCall { effect: Some(l), .. } ==> (public_trace::published(e)->0).effect
            == Some(public_trace::public_effect(l)),
        e matches EventV::EvalCall { effect: Some(l), .. } ==> (public_trace::published(e)->0).effect
            == Some(public_trace::public_effect(l)),
        e matches EventV::RetrieveCall { effect: Some(l), .. } ==> (
        public_trace::published(e)->0).effect == Some(public_trace::public_effect(l)),
        e matches EventV::StoreCall { effect: Some(l), .. } ==> (
        public_trace::published(e)->0).effect == Some(public_trace::public_effect(l)),
        e matches EventV::ToolCall { effect: Some(l), .. } ==> (public_trace::published(e)->0).effect
            == Some(public_trace::public_effect(l)),
{
}

/// A price tells what goes in apart from what comes out.
pub proof fn prices_are_told_apart(p: Pricing)
    ensures
        codec::pricing_json(p).field("input_micro_usd_per_mtok"@) == Some(
            JsonV::Int(p.input_micro_usd_per_mtok as int),
        ),
        codec::pricing_json(p).field("output_micro_usd_per_mtok"@) == Some(
            JsonV::Int(p.output_micro_usd_per_mtok as int),
        ),
{
    broadcast use naming::group_naming;

    reveal_strlit("input_micro_usd_per_mtok");
    reveal_strlit("output_micro_usd_per_mtok");
    assert("input_micro_usd_per_mtok"@[0] == 'i' && "output_micro_usd_per_mtok"@[0] == 'o');
    let f = Seq::empty().push(
        ("input_micro_usd_per_mtok"@, JsonV::Int(p.input_micro_usd_per_mtok as int)),
    ).push(("output_micro_usd_per_mtok"@, JsonV::Int(p.output_micro_usd_per_mtok as int)));
    assert(codec::pricing_json(p)->Object_0 =~= f);
}

/// The excerpt of a command's output is the start of what it printed, and there
/// is none where it printed nothing.
pub proof fn excerpts_start_the_output(result: JsonV, s: Seq<char>)
    requires
        result.field("stdout"@) == Some(JsonV::Str(s)),
    ensures
        s.len() == 0 <==> public_trace::stdout_excerpt(result) is None,
        public_trace::stdout_excerpt(result) matches Some(x) ==> x.is_prefix_of(s) && x.len()
            <= public_trace::PAYLOAD_PREVIEW_MAX_CHARS && (s.len()
            <= public_trace::PAYLOAD_PREVIEW_MAX_CHARS ==> x == s),
{
    if s.len() > 0 {
        let x = public_trace::stdout_excerpt(result)->0;
        assert(s.subrange(0, x.len() as int) =~= x);
    }
}

/// Every public event is of the same version, and is filed under its run; what no event
/// knows is left open in all of them.
pub proof fn public_events_are_alike(e: EventV)
    ensures
        public_trace::published(e) matches Some(p) ==> {
            &&& p.schema_version == 1
            &&& p.session_id == p.run_id
            &&& p.turn_id is None
            &&& p.payload_ref is None
        },
{
}

/// An error stands in the events of failures and in no event of something that started
/// or completed.
pub proof fn errors_belong_to_failures(e: EventV)
    ensures
        public_trace::published(e) matches Some(p) ==> (p.status == PublicStatus::Started || p.status
            == PublicStatus::Completed ==> p.error is None),
        e is InferError || e is EvalError || e is RetrieveError || e is StoreError || e is ToolError
            ==> (public_trace::published(e) matches Some(p) && p.status == PublicStatus::Failed
            && p.error is Some),
{
}

} // verus!
