//! The events that a run records.
use crate::effect::{EffectLocation, EffectLocationV};
use crate::ir;
use crate::ir::copy_strings;
use crate::json::{Json, JsonV};
use crate::op;
use crate::op::{copy_messages, copy_opt, ChatMessageV, Prompt, Response, ResponseV};
use vstd::prelude::*;

verus! {

/// What a million tokens cost, in millionths of a dollar.
#[derive(Debug, Clone, Copy, PartialEq, Eq, Structural)]
pub struct Pricing {
    pub input_micro_usd_per_mtok: u64,
    pub output_micro_usd_per_mtok: u64,
}

/// What the inferences of a run used in all.
#[derive(Debug, Clone, Copy, PartialEq, Eq, Structural)]
pub struct RunUsage {
    pub infer_calls: u64,
    pub input_tokens: u64,
    pub output_tokens: u64,
    pub total_tokens: u64,
    pub cached_input_tokens: Option<u64>,
    pub cost_micro_usd: Option<u64>,
    pub uncosted_infer_calls: u64,
    pub failed_infer_calls: u64,
}

/// The model of an optional value.
pub open spec fn opt_effect_location(x: Option<EffectLocation>) -> Option<EffectLocationV> {
    match x {
        Some(v) => Some(v@),
        None => None,
    }
}

fn copy_effect_location(x: &Option<EffectLocation>) -> (r: Option<EffectLocation>)
    ensures
        opt_effect_location(r) == opt_effect_location(*x),
{
    match x {
        Some(v) => Some(v.clone()),
        None => None,
    }
}

/// The model of an optional value.
pub open spec fn opt_response(x: Option<Response>) -> Option<ResponseV> {
    match x {
        Some(v) => Some(v@),
        None => None,
    }
}

fn copy_response(x: &Option<Response>) -> (r: Option<Response>)
    ensures
        opt_response(r) == opt_response(*x),
{
    match x {
        Some(v) => Some(v.clone()),
        None => None,
    }
}

/// The model of an optional prompt.
pub open spec fn opt_prompt(p: Option<Prompt>) -> Option<Seq<ChatMessageV>> {
    match p {
        Some(list) => Some(op::messages(list@)),
        None => None,
    }
}

fn copy_prompt(p: &Option<Prompt>) -> (r: Option<Prompt>)
    ensures
        opt_prompt(r) == opt_prompt(*p),
{
    match p {
        Some(list) => {
            let out = copy_messages(list, list.len());
            assert(op::messages(list@).take(list@.len() as int) =~= op::messages(list@));
            Some(out)
        },
        None => None,
    }
}

/// A copy of an optional list of strings.
pub fn copy_opt_strings(list: &Option<Vec<String>>) -> (r: Option<Vec<String>>)
    ensures
        ir::opt_texts(r) == ir::opt_texts(*list),
{
    match list {
        Some(l) => Some(copy_strings(l)),
        None => None,
    }
}

/// Something that happened in a run.  Timestamps are nanoseconds since the
/// Unix epoch.
#[derive(Debug)]
pub enum Event {
    InferCall {
        run_id: String,
        op_id: u64,
        parent_op_id: Option<u64>,
        model: String,
        prompt: Option<Prompt>,
        prompt_preview: String,
        effect: Option<EffectLocation>,
        timestamp: i128,
    },
    InferResult {
        run_id: String,
        op_id: u64,
        parent_op_id: Option<u64>,
        response: Option<Response>,
        response_preview: String,
        input_tokens: u32,
        output_tokens: u32,
        total_tokens: u32,
        cached_input_tokens: Option<u32>,
        cost_micro_usd: Option<u64>,
        pricing: Option<Pricing>,
        duration_ms: u64,
        timestamp: i128,
    },
    InferError {
        run_id: String,
        op_id: u64,
        parent_op_id: Option<u64>,
        error: String,
        duration_ms: u64,
        timestamp: i128,
    },
    EvalCall {
        run_id: String,
        op_id: u64,
        parent_op_id: Option<u64>,
        command: String,
        argv: Option<Vec<String>>,
        cwd: Option<String>,
        env_policy: String,
        timeout_ms: u64,
        effect: Option<EffectLocation>,
        timestamp: i128,
    },
    EvalResult {
        run_id: String,
        op_id: u64,
        parent_op_id: Option<u64>,
        command: String,
        result: Json,
        duration_ms: u64,
        truncated_stdout: bool,
        truncated_stderr: bool,
        timestamp: i128,
    },
    EvalError {
        run_id: String,
        op_id: u64,
        parent_op_id: Option<u64>,
        command: String,
        error: String,
        duration_ms: u64,
        timestamp: i128,
    },
    RetrieveCall {
        run_id: String,
        op_id: u64,
        parent_op_id: Option<u64>,
        query: String,
        kind: Option<String>,
        max_bytes: Option<usize>,
        effect: Option<EffectLocation>,
        timestamp: i128,
    },
    RetrieveResult {
        run_id: String,
        op_id: u64,
        parent_op_id: Option<u64>,
        results: Json,
        result_preview: String,
        source_count: usize,
        bytes: usize,
        duration_ms: u64,
        timestamp: i128,
    },
    RetrieveError {
        run_id: String,
        op_id: u64,
        parent_op_id: Option<u64>,
        error: String,
        duration_ms: u64,
        timestamp: i128,
    },
    StoreCall {
        run_id: String,
        op_id: u64,
        parent_op_id: Option<u64>,
        sink: String,
        store_op: String,
        store_id: Option<String>,
        item_preview: String,
        content_hash: String,
        effect: Option<EffectLocation>,
        timestamp: i128,
    },
    StoreResult {
        run_id: String,
        op_id: u64,
        parent_op_id: Option<u64>,
        sink: String,
        sink_id: String,
        duration_ms: u64,
        timestamp: i128,
    },
    StoreError {
        run_id: String,
        op_id: u64,
        parent_op_id: Option<u64>,
        sink: String,
        error: String,
        duration_ms: u64,
        timestamp: i128,
    },
    ToolCall {
        run_id: String,
        op_id: u64,
        parent_op_id: Option<u64>,
        name: String,
        arguments: Json,
        effect: Option<EffectLocation>,
        timestamp: i128,
    },
    ToolResult {
        run_id: String,
        op_id: u64,
        parent_op_id: Option<u64>,
        name: String,
        result: Json,
        result_preview: String,
        duration_ms: u64,
        timestamp: i128,
    },
    ToolError {
        run_id: String,
        op_id: u64,
        parent_op_id: Option<u64>,
        name: String,
        error: String,
        duration_ms: u64,
        timestamp: i128,
    },
    AgentDone { run_id: String, usage: Option<RunUsage>, timestamp: i128 },
    HydrationStart {
        run_id: String,
        op_id: u64,
        parent_op_id: Option<u64>,
        sources: Vec<String>,
        max_bytes: Option<usize>,
        timestamp: i128,
    },
    HydrationSection {
        run_id: String,
        op_id: u64,
        parent_op_id: Option<u64>,
        source: String,
        kind: String,
        bytes: usize,
        content_preview: String,
        metadata: Json,
        timestamp: i128,
    },
    HydrationEnd {
        run_id: String,
        op_id: u64,
        parent_op_id: Option<u64>,
        section_count: usize,
        total_bytes: usize,
        timestamp: i128,
    },
    ParStart {
        run_id: String,
        op_id: u64,
        parent_op_id: Option<u64>,
        branch_count: usize,
        timestamp: i128,
    },
    ParEnd {
        run_id: String,
        op_id: u64,
        parent_op_id: Option<u64>,
        branch_count: usize,
        duration_ms: u64,
        timestamp: i128,
    },
    Checkpoint { run_id: String, name: String, path: Option<String>, timestamp: i128 },
    TurnBudgetExhausted {
        run_id: String,
        max_turns: usize,
        pending_tool_calls: usize,
        first_tool: Option<String>,
        timestamp: i128,
    },
    ApprovalRequested {
        run_id: String,
        pending_id: String,
        kind: String,
        request: Json,
        effect: EffectLocation,
        timestamp: i128,
    },
    ApprovalResolved {
        run_id: String,
        pending_id: String,
        effect_id: String,
        kind: String,
        decision: String,
        resolved_by: Option<String>,
        reason: Option<String>,
        timestamp: i128,
    },
    Custom { run_id: String, name: String, data: Json, timestamp: i128 },
}

/// The model of an event.
pub enum EventV {
    InferCall {
        run_id: Seq<char>,
        op_id: u64,
        parent_op_id: Option<u64>,
        model: Seq<char>,
        prompt: Option<Seq<ChatMessageV>>,
        prompt_preview: Seq<char>,
        effect: Option<EffectLocationV>,
        timestamp: i128,
    },
    InferResult {
        run_id: Seq<char>,
        op_id: u64,
        parent_op_id: Option<u64>,
        response: Option<ResponseV>,
        response_preview: Seq<char>,
        input_tokens: u32,
        output_tokens: u32,
        total_tokens: u32,
        cached_input_tokens: Option<u32>,
        cost_micro_usd: Option<u64>,
        pricing: Option<Pricing>,
        duration_ms: u64,
        timestamp: i128,
    },
    InferError {
        run_id: Seq<char>,
        op_id: u64,
        parent_op_id: Option<u64>,
        error: Seq<char>,
        duration_ms: u64,
        timestamp: i128,
    },
    EvalCall {
        run_id: Seq<char>,
        op_id: u64,
        parent_op_id: Option<u64>,
        command: Seq<char>,
        argv: Option<Seq<Seq<char>>>,
        cwd: Option<Seq<char>>,
        env_policy: Seq<char>,
        timeout_ms: u64,
        effect: Option<EffectLocationV>,
        timestamp: i128,
    },
    EvalResult {
        run_id: Seq<char>,
        op_id: u64,
        parent_op_id: Option<u64>,
        command: Seq<char>,
        result: JsonV,
        duration_ms: u64,
        truncated_stdout: bool,
        truncated_stderr: bool,
        timestamp: i128,
    },
    EvalError {
        run_id: Seq<char>,
        op_id: u64,
        parent_op_id: Option<u64>,
        command: Seq<char>,
        error: Seq<char>,
        duration_ms: u64,
        timestamp: i128,
    },
    RetrieveCall {
        run_id: Seq<char>,
        op_id: u64,
        parent_op_id: Option<u64>,
        query: Seq<char>,
        kind: Option<Seq<char>>,
        max_bytes: Option<usize>,
        effect: Option<EffectLocationV>,
        timestamp: i128,
    },
    RetrieveResult {
        run_id: Seq<char>,
        op_id: u64,
        parent_op_id: Option<u64>,
        results: JsonV,
        result_preview: Seq<char>,
        source_count: usize,
        bytes: usize,
        duration_ms: u64,
        timestamp: i128,
    },
    RetrieveError {
        run_id: Seq<char>,
        op_id: u64,
        parent_op_id: Option<u64>,
        error: Seq<char>,
        duration_ms: u64,
        timestamp: i128,
    },
    StoreCall {
        run_id: Seq<char>,
        op_id: u64,
        parent_op_id: Option<u64>,
        sink: Seq<char>,
        store_op: Seq<char>,
        store_id: Option<Seq<char>>,
        item_preview: Seq<char>,
        content_hash: Seq<char>,
        effect: Option<EffectLocationV>,
        timestamp: i128,
    },
    StoreResult {
        run_id: Seq<char>,
        op_id: u64,
        parent_op_id: Option<u64>,
        sink: Seq<char>,
        sink_id: Seq<char>,
        duration_ms: u64,
        timestamp: i128,
    },
    StoreError {
        run_id: Seq<char>,
        op_id: u64,
        parent_op_id: Option<u64>,
        sink: Seq<char>,
        error: Seq<char>,
        duration_ms: u64,
        timestamp: i128,
    },
    ToolCall {
        run_id: Seq<char>,
        op_id: u64,
        parent_op_id: Option<u64>,
        name: Seq<char>,
        arguments: JsonV,
        effect: Option<EffectLocationV>,
        timestamp: i128,
    },
    ToolResult {
        run_id: Seq<char>,
        op_id: u64,
        parent_op_id: Option<u64>,
        name: Seq<char>,
        result: JsonV,
        result_preview: Seq<char>,
        duration_ms: u64,
        timestamp: i128,
    },
    ToolError {
        run_id: Seq<char>,
        op_id: u64,
        parent_op_id: Option<u64>,
        name: Seq<char>,
        error: Seq<char>,
        duration_ms: u64,
        timestamp: i128,
    },
    AgentDone { run_id: Seq<char>, usage: Option<RunUsage>, timestamp: i128 },
    HydrationStart {
        run_id: Seq<char>,
        op_id: u64,
        parent_op_id: Option<u64>,
        sources: Seq<Seq<char>>,
        max_bytes: Option<usize>,
        timestamp: i128,
    },
    HydrationSection {
        run_id: Seq<char>,
        op_id: u64,
        parent_op_id: Option<u64>,
        source: Seq<char>,
        kind: Seq<char>,
        bytes: usize,
        content_preview: Seq<char>,
        metadata: JsonV,
        timestamp: i128,
    },
    HydrationEnd {
        run_id: Seq<char>,
        op_id: u64,
        parent_op_id: Option<u64>,
        section_count: usize,
        total_bytes: usize,
        timestamp: i128,
    },
    ParStart {
        run_id: Seq<char>,
        op_id: u64,
        parent_op_id: Option<u64>,
        branch_count: usize,
        timestamp: i128,
    },
    ParEnd {
        run_id: Seq<char>,
        op_id: u64,
        parent_op_id: Option<u64>,
        branch_count: usize,
        duration_ms: u64,
        timestamp: i128,
    },
    Checkpoint { run_id: Seq<char>, name: Seq<char>, path: Option<Seq<char>>, timestamp: i128 },
    TurnBudgetExhausted {
        run_id: Seq<char>,
        max_turns: usize,
        pending_tool_calls: usize,
        first_tool: Option<Seq<char>>,
        timestamp: i128,
    },
    ApprovalRequested {
        run_id: Seq<char>,
        pending_id: Seq<char>,
        kind: Seq<char>,
        request: JsonV,
        effect: EffectLocationV,
        timestamp: i128,
    },
    ApprovalResolved {
        run_id: Seq<char>,
        pending_id: Seq<char>,
        effect_id: Seq<char>,
        kind: Seq<char>,
        decision: Seq<char>,
        resolved_by: Option<Seq<char>>,
        reason: Option<Seq<char>>,
        timestamp: i128,
    },
    Custom { run_id: Seq<char>, name: Seq<char>, data: JsonV, timestamp: i128 },
}

impl Event {
    pub open spec fn view(&self) -> EventV {
        match self {
            Event::InferCall {
                run_id,
                op_id,
                parent_op_id,
                model,
                prompt,
                prompt_preview,
                effect,
                timestamp,
            } => EventV::InferCall {
                run_id: run_id@,
                op_id: *op_id,
                parent_op_id: *parent_op_id,
                model: model@,
                prompt: opt_prompt(*prompt),
                prompt_preview: prompt_preview@,
                effect: opt_effect_location(*effect),
                timestamp: *timestamp,
            },
            Event::InferResult {
                run_id,
                op_id,
                parent_op_id,
                response,
                response_preview,
                input_tokens,
                output_tokens,
                total_tokens,
                cached_input_tokens,
                cost_micro_usd,
                pricing,
                duration_ms,
                timestamp,
            } => EventV::InferResult {
                run_id: run_id@,
                op_id: *op_id,
                parent_op_id: *parent_op_id,
                response: opt_response(*response),
                response_preview: response_preview@,
                input_tokens: *input_tokens,
                output_tokens: *output_tokens,
                total_tokens: *total_tokens,
                cached_input_tokens: *cached_input_tokens,
                cost_micro_usd: *cost_micro_usd,
                pricing: *pricing,
                duration_ms: *duration_ms,
                timestamp: *timestamp,
            },
            Event::InferError {
                run_id,
                op_id,
                parent_op_id,
                error,
                duration_ms,
                timestamp,
            } => EventV::InferError {
                run_id: run_id@,
                op_id: *op_id,
                parent_op_id: *parent_op_id,
                error: error@,
                duration_ms: *duration_ms,
                timestamp: *timestamp,
            },
            Event::EvalCall {
                run_id,
                op_id,
                parent_op_id,
                command,
                argv,
                cwd,
                env_policy,
                timeout_ms,
                effect,
                timestamp,
            } => EventV::EvalCall {
                run_id: run_id@,
                op_id: *op_id,
                parent_op_id: *parent_op_id,
                command: command@,
                argv: ir::opt_texts(*argv),
                cwd: op::opt_text(*cwd),
                env_policy: env_policy@,
                timeout_ms: *timeout_ms,
                effect: opt_effect_location(*effect),
                timestamp: *timestamp,
            },
            Event::EvalResult {
                run_id,
                op_id,
                parent_op_id,
                command,
                result,
                duration_ms,
                truncated_stdout,
                truncated_stderr,
                timestamp,
            } => EventV::EvalResult {
                run_id: run_id@,
                op_id: *op_id,
                parent_op_id: *parent_op_id,
                command: command@,
                result: result@,
                duration_ms: *duration_ms,
                truncated_stdout: *truncated_stdout,
                truncated_stderr: *truncated_stderr,
                timestamp: *timestamp,
            },
            Event::EvalError {
                run_id,
                op_id,
                parent_op_id,
                command,
                error,
                duration_ms,
                timestamp,
            } => EventV::EvalError {
                run_id: run_id@,
                op_id: *op_id,
                parent_op_id: *parent_op_id,
                command: command@,
                error: error@,
                duration_ms: *duration_ms,
                timestamp: *timestamp,
            },
            Event::RetrieveCall {
                run_id,
                op_id,
                parent_op_id,
                query,
                kind,
                max_bytes,
                effect,
                timestamp,
            } => EventV::RetrieveCall {
                run_id: run_id@,
                op_id: *op_id,
                parent_op_id: *parent_op_id,
                query: query@,
                kind: op::opt_text(*kind),
                max_bytes: *max_bytes,
                effect: opt_effect_location(*effect),
                timestamp: *timestamp,
            },
            Event::RetrieveResult {
                run_id,
                op_id,
                parent_op_id,
                results,
                result_preview,
                source_count,
                bytes,
                duration_ms,
                timestamp,
            } => EventV::RetrieveResult {
                run_id: run_id@,
                op_id: *op_id,
                parent_op_id: *parent_op_id,
                results: results@,
                result_preview: result_preview@,
                source_count: *source_count,
                bytes: *bytes,
                duration_ms: *duration_ms,
                timestamp: *timestamp,
            },
            Event::RetrieveError {
                run_id,
                op_id,
                parent_op_id,
                error,
                duration_ms,
                timestamp,
            } => EventV::RetrieveError {
                run_id: run_id@,
                op_id: *op_id,
                parent_op_id: *parent_op_id,
                error: error@,
                duration_ms: *duration_ms,
                timestamp: *timestamp,
            },
            Event::StoreCall {
                run_id,
                op_id,
                parent_op_id,
                sink,
                store_op,
                store_id,
                item_preview,
                content_hash,
                effect,
                timestamp,
            } => EventV::StoreCall {
                run_id: run_id@,
                op_id: *op_id,
                parent_op_id: *parent_op_id,
                sink: sink@,
                store_op: store_op@,
                store_id: op::opt_text(*store_id),
                item_preview: item_preview@,
                content_hash: content_hash@,
                effect: opt_effect_location(*effect),
                timestamp: *timestamp,
            },
            Event::StoreResult {
                run_id,
                op_id,
                parent_op_id,
                sink,
                sink_id,
                duration_ms,
                timestamp,
            } => EventV::StoreResult {
                run_id: run_id@,
                op_id: *op_id,
                parent_op_id: *parent_op_id,
                sink: sink@,
                sink_id: sink_id@,
                duration_ms: *duration_ms,
                timestamp: *timestamp,
            },
            Event::StoreError {
                run_id,
                op_id,
                parent_op_id,
                sink,
                error,
                duration_ms,
                timestamp,
            } => EventV::StoreError {
                run_id: run_id@,
                op_id: *op_id,
                parent_op_id: *parent_op_id,
                sink: sink@,
                error: error@,
                duration_ms: *duration_ms,
                timestamp: *timestamp,
            },
            Event::ToolCall {
                run_id,
                op_id,
                parent_op_id,
                name,
                arguments,
                effect,
                timestamp,
            } => EventV::ToolCall {
                run_id: run_id@,
                op_id: *op_id,
                parent_op_id: *parent_op_id,
                name: name@,
                arguments: arguments@,
                effect: opt_effect_location(*effect),
                timestamp: *timestamp,
            },
            Event::ToolResult {
                run_id,
                op_id,
                parent_op_id,
                name,
                result,
                result_preview,
                duration_ms,
                timestamp,
            } => EventV::ToolResult {
                run_id: run_id@,
                op_id: *op_id,
                parent_op_id: *parent_op_id,
                name: name@,
                result: result@,
                result_preview: result_preview@,
                duration_ms: *duration_ms,
                timestamp: *timestamp,
            },
            Event::ToolError {
                run_id,
                op_id,
                parent_op_id,
                name,
                error,
                duration_ms,
                timestamp,
            } => EventV::ToolError {
                run_id: run_id@,
                op_id: *op_id,
                parent_op_id: *parent_op_id,
                name: name@,
                error: error@,
                duration_ms: *duration_ms,
                timestamp: *timestamp,
            },
            Event::AgentDone { run_id, usage, timestamp } => EventV::AgentDone {
                run_id: run_id@,
                usage: *usage,
                timestamp: *timestamp,
            },
            Event::HydrationStart {
                run_id,
                op_id,
                parent_op_id,
                sources,
                max_bytes,
                timestamp,
            } => EventV::HydrationStart {
                run_id: run_id@,
                op_id: *op_id,
                parent_op_id: *parent_op_id,
                sources: op::texts(sources@),
                max_bytes: *max_bytes,
                timestamp: *timestamp,
            },
            Event::HydrationSection {
                run_id,
                op_id,
                parent_op_id,
                source,
                kind,
                bytes,
                content_preview,
                metadata,
                timestamp,
            } => EventV::HydrationSection {
                run_id: run_id@,
                op_id: *op_id,
                parent_op_id: *parent_op_id,
                source: source@,
                kind: kind@,
                bytes: *bytes,
                content_preview: content_preview@,
                metadata: metadata@,
                timestamp: *timestamp,
            },
            Event::HydrationEnd {
                run_id,
                op_id,
                parent_op_id,
                section_count,
                total_bytes,
                timestamp,
            } => EventV::HydrationEnd {
                run_id: run_id@,
                op_id: *op_id,
                parent_op_id: *parent_op_id,
                section_count: *section_count,
                total_bytes: *total_bytes,
                timestamp: *timestamp,
            },
            Event::ParStart {
                run_id,
                op_id,
                parent_op_id,
                branch_count,
                timestamp,
            } => EventV::ParStart {
                run_id: run_id@,
                op_id: *op_id,
                parent_op_id: *parent_op_id,
                branch_count: *branch_count,
                timestamp: *timestamp,
            },
            Event::ParEnd {
                run_id,
                op_id,
                parent_op_id,
                branch_count,
                duration_ms,
                timestamp,
            } => EventV::ParEnd {
                run_id: run_id@,
                op_id: *op_id,
                parent_op_id: *parent_op_id,
                branch_count: *branch_count,
                duration_ms: *duration_ms,
                timestamp: *timestamp,
            },
            Event::Checkpoint { run_id, name, path, timestamp } => EventV::Checkpoint {
                run_id: run_id@,
                name: name@,
                path: op::opt_text(*path),
                timestamp: *timestamp,
            },
            Event::TurnBudgetExhausted {
                run_id,
                max_turns,
                pending_tool_calls,
                first_tool,
                timestamp,
            } => EventV::TurnBudgetExhausted {
                run_id: run_id@,
                max_turns: *max_turns,
                pending_tool_calls: *pending_tool_calls,
                first_tool: op::opt_text(*first_tool),
                timestamp: *timestamp,
            },
            Event::ApprovalRequested {
                run_id,
                pending_id,
                kind,
                request,
                effect,
                timestamp,
            } => EventV::ApprovalRequested {
                run_id: run_id@,
                pending_id: pending_id@,
                kind: kind@,
                request: request@,
                effect: effect@,
                timestamp: *timestamp,
            },
            Event::ApprovalResolved {
                run_id,
                pending_id,
                effect_id,
                kind,
                decision,
                resolved_by,
                reason,
                timestamp,
            } => EventV::ApprovalResolved {
                run_id: run_id@,
                pending_id: pending_id@,
                effect_id: effect_id@,
                kind: kind@,
                decision: decision@,
                resolved_by: op::opt_text(*resolved_by),
                reason: op::opt_text(*reason),
                timestamp: *timestamp,
            },
            Event::Custom { run_id, name, data, timestamp } => EventV::Custom {
                run_id: run_id@,
                name: name@,
                data: data@,
                timestamp: *timestamp,
            },
        }
    }
}

impl Clone for Event {
    fn clone(&self) -> (r: Self)
        ensures
            r@ == self@,
    {
        match self {
            Event::InferCall {
                run_id,
                op_id,
                parent_op_id,
                model,
                prompt,
                prompt_preview,
                effect,
                timestamp,
            } => Event::InferCall {
                run_id: run_id.clone(),
                op_id: *op_id,
                parent_op_id: *parent_op_id,
                model: model.clone(),
                prompt: copy_prompt(prompt),
                prompt_preview: prompt_preview.clone(),
                effect: copy_effect_location(effect),
                timestamp: *timestamp,
            },
            Event::InferResult {
                run_id,
                op_id,
                parent_op_id,
                response,
                response_preview,
                input_tokens,
                output_tokens,
                total_tokens,
                cached_input_tokens,
                cost_micro_usd,
                pricing,
                duration_ms,
                timestamp,
            } => Event::InferResult {
                run_id: run_id.clone(),
                op_id: *op_id,
                parent_op_id: *parent_op_id,
                response: copy_response(response),
                response_preview: response_preview.clone(),
                input_tokens: *input_tokens,
                output_tokens: *output_tokens,
                total_tokens: *total_tokens,
                cached_input_tokens: *cached_input_tokens,
                cost_micro_usd: *cost_micro_usd,
                pricing: *pricing,
                duration_ms: *duration_ms,
                timestamp: *timestamp,
            },
            Event::InferError {
                run_id,
                op_id,
                parent_op_id,
                error,
                duration_ms,
                timestamp,
            } => Event::InferError {
                run_id: run_id.clone(),
                op_id: *op_id,
                parent_op_id: *parent_op_id,
                error: error.clone(),
                duration_ms: *duration_ms,
                timestamp: *timestamp,
            },
            Event::EvalCall {
                run_id,
                op_id,
                parent_op_id,
                command,
                argv,
                cwd,
                env_policy,
                timeout_ms,
                effect,
                timestamp,
            } => Event::EvalCall {
                run_id: run_id.clone(),
                op_id: *op_id,
                parent_op_id: *parent_op_id,
                command: command.clone(),
                argv: copy_opt_strings(argv),
                cwd: copy_opt(cwd),
                env_policy: env_policy.clone(),
                timeout_ms: *timeout_ms,
                effect: copy_effect_location(effect),
                timestamp: *timestamp,
            },
            Event::EvalResult {
                run_id,
                op_id,
                parent_op_id,
                command,
                result,
                duration_ms,
                truncated_stdout,
                truncated_stderr,
                timestamp,
            } => Event::EvalResult {
                run_id: run_id.clone(),
                op_id: *op_id,
                parent_op_id: *parent_op_id,
                command: command.clone(),
                result: result.clone(),
                duration_ms: *duration_ms,
                truncated_stdout: *truncated_stdout,
                truncated_stderr: *truncated_stderr,
                timestamp: *timestamp,
            },
            Event::EvalError {
                run_id,
                op_id,
                parent_op_id,
                command,
                error,
                duration_ms,
                timestamp,
            } => Event::EvalError {
                run_id: run_id.clone(),
                op_id: *op_id,
                parent_op_id: *parent_op_id,
                command: command.clone(),
                error: error.clone(),
                duration_ms: *duration_ms,
                timestamp: *timestamp,
            },
            Event::RetrieveCall {
                run_id,
                op_id,
                parent_op_id,
                query,
                kind,
                max_bytes,
                effect,
                timestamp,
            } => Event::RetrieveCall {
                run_id: run_id.clone(),
                op_id: *op_id,
                parent_op_id: *parent_op_id,
                query: query.clone(),
                kind: copy_opt(kind),
                max_bytes: *max_bytes,
                effect: copy_effect_location(effect),
                timestamp: *timestamp,
            },
            Event::RetrieveResult {
                run_id,
                op_id,
                parent_op_id,
                results,
                result_preview,
                source_count,
                bytes,
                duration_ms,
                timestamp,
            } => Event::RetrieveResult {
                run_id: run_id.clone(),
                op_id: *op_id,
                parent_op_id: *parent_op_id,
                results: results.clone(),
                result_preview: result_preview.clone(),
                source_count: *source_count,
                bytes: *bytes,
                duration_ms: *duration_ms,
                timestamp: *timestamp,
            },
            Event::RetrieveError {
                run_id,
                op_id,
                parent_op_id,
                error,
                duration_ms,
                timestamp,
            } => Event::RetrieveError {
                run_id: run_id.clone(),
                op_id: *op_id,
                parent_op_id: *parent_op_id,
                error: error.clone(),
                duration_ms: *duration_ms,
                timestamp: *timestamp,
            },
            Event::StoreCall {
                run_id,
                op_id,
                parent_op_id,
                sink,
                store_op,
                store_id,
                item_preview,
                content_hash,
                effect,
                timestamp,
            } => Event::StoreCall {
                run_id: run_id.clone(),
                op_id: *op_id,
                parent_op_id: *parent_op_id,
                sink: sink.clone(),
                store_op: store_op.clone(),
                store_id: copy_opt(store_id),
                item_preview: item_preview.clone(),
                content_hash: content_hash.clone(),
                effect: copy_effect_location(effect),
                timestamp: *timestamp,
            },
            Event::StoreResult {
                run_id,
                op_id,
                parent_op_id,
                sink,
                sink_id,
                duration_ms,
                timestamp,
            } => Event::StoreResult {
                run_id: run_id.clone(),
                op_id: *op_id,
                parent_op_id: *parent_op_id,
                sink: sink.clone(),
                sink_id: sink_id.clone(),
                duration_ms: *duration_ms,
                timestamp: *timestamp,
            },
            Event::StoreError {
                run_id,
                op_id,
                parent_op_id,
                sink,
                error,
                duration_ms,
                timestamp,
            } => Event::StoreError {
                run_id: run_id.clone(),
                op_id: *op_id,
                parent_op_id: *parent_op_id,
                sink: sink.clone(),
                error: error.clone(),
                duration_ms: *duration_ms,
                timestamp: *timestamp,
            },
            Event::ToolCall {
                run_id,
                op_id,
                parent_op_id,
                name,
                arguments,
                effect,
                timestamp,
            } => Event::ToolCall {
                run_id: run_id.clone(),
                op_id: *op_id,
                parent_op_id: *parent_op_id,
                name: name.clone(),
                arguments: arguments.clone(),
                effect: copy_effect_location(effect),
                timestamp: *timestamp,
            },
            Event::ToolResult {
                run_id,
                op_id,
                parent_op_id,
                name,
                result,
                result_preview,
                duration_ms,
                timestamp,
            } => Event::ToolResult {
                run_id: run_id.clone(),
                op_id: *op_id,
                parent_op_id: *parent_op_id,
                name: name.clone(),
                result: result.clone(),
                result_preview: result_preview.clone(),
                duration_ms: *duration_ms,
                timestamp: *timestamp,
            },
            Event::ToolError {
                run_id,
                op_id,
                parent_op_id,
                name,
                error,
                duration_ms,
                timestamp,
            } => Event::ToolError {
                run_id: run_id.clone(),
                op_id: *op_id,
                parent_op_id: *parent_op_id,
                name: name.clone(),
                error: error.clone(),
                duration_ms: *duration_ms,
                timestamp: *timestamp,
            },
            Event::AgentDone { run_id, usage, timestamp } => Event::AgentDone {
                run_id: run_id.clone(),
                usage: *usage,
                timestamp: *timestamp,
            },
            Event::HydrationStart {
                run_id,
                op_id,
                parent_op_id,
                sources,
                max_bytes,
                timestamp,
            } => Event::HydrationStart {
                run_id: run_id.clone(),
                op_id: *op_id,
                parent_op_id: *parent_op_id,
                sources: copy_strings(sources),
                max_bytes: *max_bytes,
                timestamp: *timestamp,
            },
            Event::HydrationSection {
                run_id,
                op_id,
                parent_op_id,
                source,
                kind,
                bytes,
                content_preview,
                metadata,
                timestamp,
            } => Event::HydrationSection {
                run_id: run_id.clone(),
                op_id: *op_id,
                parent_op_id: *parent_op_id,
                source: source.clone(),
                kind: kind.clone(),
                bytes: *bytes,
                content_preview: content_preview.clone(),
                metadata: metadata.clone(),
                timestamp: *timestamp,
            },
            Event::HydrationEnd {
                run_id,
                op_id,
                parent_op_id,
                section_count,
                total_bytes,
                timestamp,
            } => Event::HydrationEnd {
                run_id: run_id.clone(),
                op_id: *op_id,
                parent_op_id: *parent_op_id,
                section_count: *section_count,
                total_bytes: *total_bytes,
                timestamp: *timestamp,
            },
            Event::ParStart {
                run_id,
                op_id,
                parent_op_id,
                branch_count,
                timestamp,
            } => Event::ParStart {
                run_id: run_id.clone(),
                op_id: *op_id,
                parent_op_id: *parent_op_id,
                branch_count: *branch_count,
                timestamp: *timestamp,
            },
            Event::ParEnd {
                run_id,
                op_id,
                parent_op_id,
                branch_count,
                duration_ms,
                timestamp,
            } => Event::ParEnd {
                run_id: run_id.clone(),
                op_id: *op_id,
                parent_op_id: *parent_op_id,
                branch_count: *branch_count,
                duration_ms: *duration_ms,
                timestamp: *timestamp,
            },
            Event::Checkpoint { run_id, name, path, timestamp } => Event::Checkpoint {
                run_id: run_id.clone(),
                name: name.clone(),
                path: copy_opt(path),
                timestamp: *timestamp,
            },
            Event::TurnBudgetExhausted {
                run_id,
                max_turns,
                pending_tool_calls,
                first_tool,
                timestamp,
            } => Event::TurnBudgetExhausted {
                run_id: run_id.clone(),
                max_turns: *max_turns,
                pending_tool_calls: *pending_tool_calls,
                first_tool: copy_opt(first_tool),
                timestamp: *timestamp,
            },
            Event::ApprovalRequested {
                run_id,
                pending_id,
                kind,
                request,
                effect,
                timestamp,
            } => Event::ApprovalRequested {
                run_id: run_id.clone(),
                pending_id: pending_id.clone(),
                kind: kind.clone(),
                request: request.clone(),
                effect: effect.clone(),
                timestamp: *timestamp,
            },
            Event::ApprovalResolved {
                run_id,
                pending_id,
                effect_id,
                kind,
                decision,
                resolved_by,
                reason,
                timestamp,
            } => Event::ApprovalResolved {
                run_id: run_id.clone(),
                pending_id: pending_id.clone(),
                effect_id: effect_id.clone(),
                kind: kind.clone(),
                decision: decision.clone(),
                resolved_by: copy_opt(resolved_by),
                reason: copy_opt(reason),
                timestamp: *timestamp,
            },
            Event::Custom { run_id, name, data, timestamp } => Event::Custom {
                run_id: run_id.clone(),
                name: name.clone(),
                data: data.clone(),
                timestamp: *timestamp,
            },
        }
    }
}

} // verus!
