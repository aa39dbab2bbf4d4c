//! The index of a recorded run by which its effects are replayed.
use crate::effect::{EffectLocation, EffectLocationV};
use crate::ir;
use crate::ir::EffectKind;
use crate::ir_flow;
use crate::ir_flow::show_label;
use crate::json;
use crate::json::{same_json, Json, JsonV};
use crate::op;
use crate::op::{copy_opt, same_opt, Response, ResponseV};
use crate::output_contract::OUTPUT_CONTRACT_EVENT;
use crate::table;
use crate::table::{get_entry, set_entry};
use crate::text;
use crate::text::{debug_quoted, decimal_of, preview, same_text};
use crate::trace;
use crate::trace::{copy_opt_strings, Event, EventV};
use vstd::prelude::*;

verus! {

/// A recorded inference.
#[derive(Debug)]
pub struct IrInferCall {
    pub location: EffectLocation,
    pub model: String,
}

/// The model of a recorded inference.
pub struct IrInferCallV {
    pub location: EffectLocationV,
    pub model: Seq<char>,
}

impl IrInferCall {
    pub open spec fn view(&self) -> IrInferCallV {
        IrInferCallV {
            location: self.location@,
            model: self.model@,
        }
    }
}

impl Clone for IrInferCall {
    fn clone(&self) -> (r: Self)
        ensures
            r@ == self@,
    {
        IrInferCall {
            location: self.location.clone(),
            model: self.model.clone(),
        }
    }
}

/// A recorded evaluation: the command as shown and, where it was run directly,
/// its exact arguments.
#[derive(Debug)]
pub struct IrEvalCall {
    pub location: EffectLocation,
    pub command: String,
    pub argv: Option<Vec<String>>,
}

/// The model of a recorded evaluation.
pub struct IrEvalCallV {
    pub location: EffectLocationV,
    pub command: Seq<char>,
    pub argv: Option<Seq<Seq<char>>>,
}

impl IrEvalCall {
    pub open spec fn view(&self) -> IrEvalCallV {
        IrEvalCallV {
            location: self.location@,
            command: self.command@,
            argv: ir::opt_texts(self.argv),
        }
    }
}

impl Clone for IrEvalCall {
    fn clone(&self) -> (r: Self)
        ensures
            r@ == self@,
    {
        IrEvalCall {
            location: self.location.clone(),
            command: self.command.clone(),
            argv: copy_opt_strings(&self.argv),
        }
    }
}

/// A recorded retrieval.
#[derive(Debug)]
pub struct IrRetrieveCall {
    pub query: String,
    pub kind: Option<String>,
    pub max_bytes: Option<usize>,
}

/// The model of a recorded retrieval.
pub struct IrRetrieveCallV {
    pub query: Seq<char>,
    pub kind: Option<Seq<char>>,
    pub max_bytes: Option<usize>,
}

impl IrRetrieveCall {
    pub open spec fn view(&self) -> IrRetrieveCallV {
        IrRetrieveCallV {
            query: self.query@,
            kind: op::opt_text(self.kind),
            max_bytes: self.max_bytes,
        }
    }
}

impl Clone for IrRetrieveCall {
    fn clone(&self) -> (r: Self)
        ensures
            r@ == self@,
    {
        IrRetrieveCall {
            query: self.query.clone(),
            kind: copy_opt(&self.kind),
            max_bytes: self.max_bytes,
        }
    }
}

/// A recorded store.
#[derive(Debug)]
pub struct IrStoreCall {
    pub sink: String,
    pub op: String,
    pub id: Option<String>,
    pub content_hash: String,
}

/// The model of a recorded store.
pub struct IrStoreCallV {
    pub sink: Seq<char>,
    pub op: Seq<char>,
    pub id: Option<Seq<char>>,
    pub content_hash: Seq<char>,
}

impl IrStoreCall {
    pub open spec fn view(&self) -> IrStoreCallV {
        IrStoreCallV {
            sink: self.sink@,
            op: self.op@,
            id: op::opt_text(self.id),
            content_hash: self.content_hash@,
        }
    }
}

impl Clone for IrStoreCall {
    fn clone(&self) -> (r: Self)
        ensures
            r@ == self@,
    {
        IrStoreCall {
            sink: self.sink.clone(),
            op: self.op.clone(),
            id: copy_opt(&self.id),
            content_hash: self.content_hash.clone(),
        }
    }
}

/// A recorded call of a native tool.
#[derive(Debug)]
pub struct IrToolCall {
    pub location: EffectLocation,
    pub name: String,
    pub arguments: Json,
}

/// The model of a recorded tool call.
pub struct IrToolCallV {
    pub location: EffectLocationV,
    pub name: Seq<char>,
    pub arguments: JsonV,
}

impl IrToolCall {
    pub open spec fn view(&self) -> IrToolCallV {
        IrToolCallV {
            location: self.location@,
            name: self.name@,
            arguments: self.arguments@,
        }
    }
}

impl Clone for IrToolCall {
    fn clone(&self) -> (r: Self)
        ensures
            r@ == self@,
    {
        IrToolCall {
            location: self.location.clone(),
            name: self.name.clone(),
            arguments: self.arguments.clone(),
        }
    }
}

/// A recorded request for approval.
#[derive(Debug)]
pub struct IrApprovalRequested {
    pub pending_id: String,
    pub kind: String,
    pub request: Json,
}

/// The model of a recorded request.
pub struct IrApprovalRequestedV {
    pub pending_id: Seq<char>,
    pub kind: Seq<char>,
    pub request: JsonV,
}

impl IrApprovalRequested {
    pub open spec fn view(&self) -> IrApprovalRequestedV {
        IrApprovalRequestedV {
            pending_id: self.pending_id@,
            kind: self.kind@,
            request: self.request@,
        }
    }
}

impl Clone for IrApprovalRequested {
    fn clone(&self) -> (r: Self)
        ensures
            r@ == self@,
    {
        IrApprovalRequested {
            pending_id: self.pending_id.clone(),
            kind: self.kind.clone(),
            request: self.request.clone(),
        }
    }
}

/// A recorded decision on a request.
#[derive(Debug)]
pub struct IrApprovalResolved {
    pub pending_id: String,
    pub decision: String,
    pub resolved_by: Option<String>,
    pub reason: Option<String>,
}

/// The model of a recorded decision.
pub struct IrApprovalResolvedV {
    pub pending_id: Seq<char>,
    pub decision: Seq<char>,
    pub resolved_by: Option<Seq<char>>,
    pub reason: Option<Seq<char>>,
}

impl IrApprovalResolved {
    pub open spec fn view(&self) -> IrApprovalResolvedV {
        IrApprovalResolvedV {
            pending_id: self.pending_id@,
            decision: self.decision@,
            resolved_by: op::opt_text(self.resolved_by),
            reason: op::opt_text(self.reason),
        }
    }
}

impl Clone for IrApprovalResolved {
    fn clone(&self) -> (r: Self)
        ensures
            r@ == self@,
    {
        IrApprovalResolved {
            pending_id: self.pending_id.clone(),
            decision: self.decision.clone(),
            resolved_by: copy_opt(&self.resolved_by),
            reason: copy_opt(&self.reason),
        }
    }
}

/// The recorded effects of a run by their ids.
#[derive(Debug)]
pub struct IrReplayTrace {
    pub infer_calls: Vec<(String, IrInferCall)>,
    pub infer_results: Vec<(String, Response)>,
    pub infer_errors: Vec<(String, String)>,
    pub eval_calls: Vec<(String, IrEvalCall)>,
    pub eval_results: Vec<(String, Json)>,
    pub eval_errors: Vec<(String, String)>,
    pub retrieve_calls: Vec<(String, IrRetrieveCall)>,
    pub retrieve_results: Vec<(String, Json)>,
    pub retrieve_errors: Vec<(String, String)>,
    pub store_calls: Vec<(String, IrStoreCall)>,
    pub store_results: Vec<(String, String)>,
    pub store_errors: Vec<(String, String)>,
    pub tool_calls: Vec<(String, IrToolCall)>,
    pub tool_results: Vec<(String, Json)>,
    pub tool_errors: Vec<(String, String)>,
    pub approval_requests: Vec<(String, IrApprovalRequested)>,
    pub approval_resolutions: Vec<(String, IrApprovalResolved)>,
    /// The hash of the output schema that the run was held to.
    pub output_schema: Option<String>,
}

/// The model of a replay index.
#[verifier::ext_equal]
pub struct IrReplayTraceV {
    pub infer_calls: Map<Seq<char>, IrInferCallV>,
    pub infer_results: Map<Seq<char>, ResponseV>,
    pub infer_errors: Map<Seq<char>, Seq<char>>,
    pub eval_calls: Map<Seq<char>, IrEvalCallV>,
    pub eval_results: Map<Seq<char>, JsonV>,
    pub eval_errors: Map<Seq<char>, Seq<char>>,
    pub retrieve_calls: Map<Seq<char>, IrRetrieveCallV>,
    pub retrieve_results: Map<Seq<char>, JsonV>,
    pub retrieve_errors: Map<Seq<char>, Seq<char>>,
    pub store_calls: Map<Seq<char>, IrStoreCallV>,
    pub store_results: Map<Seq<char>, Seq<char>>,
    pub store_errors: Map<Seq<char>, Seq<char>>,
    pub tool_calls: Map<Seq<char>, IrToolCallV>,
    pub tool_results: Map<Seq<char>, JsonV>,
    pub tool_errors: Map<Seq<char>, Seq<char>>,
    pub approval_requests: Map<Seq<char>, IrApprovalRequestedV>,
    pub approval_resolutions: Map<Seq<char>, IrApprovalResolvedV>,
    pub output_schema: Option<Seq<char>>,
}

impl IrReplayTrace {
    pub open spec fn view(&self) -> IrReplayTraceV {
        IrReplayTraceV {
            infer_calls: table::entries(self.infer_calls@).map_values(|v: IrInferCall| v@),
            infer_results: table::entries(self.infer_results@).map_values(|v: Response| v@),
            infer_errors: table::entries(self.infer_errors@).map_values(|v: String| v@),
            eval_calls: table::entries(self.eval_calls@).map_values(|v: IrEvalCall| v@),
            eval_results: table::entries(self.eval_results@).map_values(|v: Json| v@),
            eval_errors: table::entries(self.eval_errors@).map_values(|v: String| v@),
            retrieve_calls: table::entries(self.retrieve_calls@).map_values(|v: IrRetrieveCall| v@),
            retrieve_results: table::entries(self.retrieve_results@).map_values(|v: Json| v@),
            retrieve_errors: table::entries(self.retrieve_errors@).map_values(|v: String| v@),
            store_calls: table::entries(self.store_calls@).map_values(|v: IrStoreCall| v@),
            store_results: table::entries(self.store_results@).map_values(|v: String| v@),
            store_errors: table::entries(self.store_errors@).map_values(|v: String| v@),
            tool_calls: table::entries(self.tool_calls@).map_values(|v: IrToolCall| v@),
            tool_results: table::entries(self.tool_results@).map_values(|v: Json| v@),
            tool_errors: table::entries(self.tool_errors@).map_values(|v: String| v@),
            approval_requests: table::entries(self.approval_requests@).map_values(|v: IrApprovalRequested| v@),
            approval_resolutions: table::entries(self.approval_resolutions@).map_values(|v: IrApprovalResolved| v@),
            output_schema: op::opt_text(self.output_schema),
        }
    }
}

/// An index that holds nothing.
pub open spec fn nothing_recorded() -> IrReplayTraceV {
    IrReplayTraceV {
        infer_calls: Map::empty(),
        infer_results: Map::empty(),
        infer_errors: Map::empty(),
        eval_calls: Map::empty(),
        eval_results: Map::empty(),
        eval_errors: Map::empty(),
        retrieve_calls: Map::empty(),
        retrieve_results: Map::empty(),
        retrieve_errors: Map::empty(),
        store_calls: Map::empty(),
        store_results: Map::empty(),
        store_errors: Map::empty(),
        tool_calls: Map::empty(),
        tool_results: Map::empty(),
        tool_errors: Map::empty(),
        approval_requests: Map::empty(),
        approval_resolutions: Map::empty(),
        output_schema: None,
    }
}

/// An index under construction: what was recorded, which effect each
/// operation carried out, and the outcomes that came before their calls.
#[verifier::ext_equal]
pub struct IndexV {
    pub trace: IrReplayTraceV,
    pub ops: Map<u64, Seq<char>>,
    pub early: Seq<EventV>,
}

/// Why a recording cannot be replayed.
#[derive(Debug)]
pub enum ReplayError {
    NoIdentity { kind: EffectKind, op_id: u64 },
    WrongKind { expected: EffectKind, op_id: u64, found: EffectLocation },
    MissingCall { kind: EffectKind, location: EffectLocation },
    InferDiverged { effect_id: String, recorded: IrInferCall, model: String },
    EvalDiverged {
        effect_id: String,
        recorded: IrEvalCall,
        command: String,
        argv: Option<Vec<String>>,
    },
    RetrieveDiverged { effect_id: String, recorded: IrRetrieveCall, observed: IrRetrieveCall },
    StoreDiverged { effect_id: String, recorded: IrStoreCall, observed: IrStoreCall },
    ToolDiverged { effect_id: String, recorded: IrToolCall, name: String, arguments: Json },
    Failed { kind: EffectKind, effect_id: String, error: String },
    MissingResult { kind: EffectKind, effect_id: String },
    NoApproval { effect_id: String },
    RequestDiverged { effect_id: String, recorded: Json, observed: Json },
}

/// The model of a replay error.
pub enum ReplayErrorV {
    NoIdentity { kind: EffectKind, op_id: u64 },
    WrongKind { expected: EffectKind, op_id: u64, found: EffectLocationV },
    MissingCall { kind: EffectKind, location: EffectLocationV },
    InferDiverged { effect_id: Seq<char>, recorded: IrInferCallV, model: Seq<char> },
    EvalDiverged {
        effect_id: Seq<char>,
        recorded: IrEvalCallV,
        command: Seq<char>,
        argv: Option<Seq<Seq<char>>>,
    },
    RetrieveDiverged { effect_id: Seq<char>, recorded: IrRetrieveCallV, observed: IrRetrieveCallV },
    StoreDiverged { effect_id: Seq<char>, recorded: IrStoreCallV, observed: IrStoreCallV },
    ToolDiverged { effect_id: Seq<char>, recorded: IrToolCallV, name: Seq<char>, arguments: JsonV },
    Failed { kind: EffectKind, effect_id: Seq<char>, error: Seq<char> },
    MissingResult { kind: EffectKind, effect_id: Seq<char> },
    NoApproval { effect_id: Seq<char> },
    RequestDiverged { effect_id: Seq<char>, recorded: JsonV, observed: JsonV },
}

impl ReplayError {
    pub open spec fn view(&self) -> ReplayErrorV {
        match self {
            ReplayError::NoIdentity { kind, op_id } => ReplayErrorV::NoIdentity {
                kind: *kind,
                op_id: *op_id,
            },
            ReplayError::WrongKind { expected, op_id, found } => ReplayErrorV::WrongKind {
                expected: *expected,
                op_id: *op_id,
                found: found@,
            },
            ReplayError::MissingCall { kind, location } => ReplayErrorV::MissingCall {
                kind: *kind,
                location: location@,
            },
            ReplayError::InferDiverged {
                effect_id,
                recorded,
                model,
            } => ReplayErrorV::InferDiverged {
                effect_id: effect_id@,
                recorded: recorded@,
                model: model@,
            },
            ReplayError::EvalDiverged {
                effect_id,
                recorded,
                command,
                argv,
            } => ReplayErrorV::EvalDiverged {
                effect_id: effect_id@,
                recorded: recorded@,
                command: command@,
                argv: ir::opt_texts(*argv),
            },
            ReplayError::RetrieveDiverged {
                effect_id,
                recorded,
                observed,
            } => ReplayErrorV::RetrieveDiverged {
                effect_id: effect_id@,
                recorded: recorded@,
                observed: observed@,
            },
            ReplayError::StoreDiverged {
                effect_id,
                recorded,
                observed,
            } => ReplayErrorV::StoreDiverged {
                effect_id: effect_id@,
                recorded: recorded@,
                observed: observed@,
            },
            ReplayError::ToolDiverged {
                effect_id,
                recorded,
                name,
                arguments,
            } => ReplayErrorV::ToolDiverged {
                effect_id: effect_id@,
                recorded: recorded@,
                name: name@,
                arguments: arguments@,
            },
            ReplayError::Failed { kind, effect_id, error } => ReplayErrorV::Failed {
                kind: *kind,
                effect_id: effect_id@,
                error: error@,
            },
            ReplayError::MissingResult { kind, effect_id } => ReplayErrorV::MissingResult {
                kind: *kind,
                effect_id: effect_id@,
            },
            ReplayError::NoApproval { effect_id } => ReplayErrorV::NoApproval { effect_id: effect_id@ },
            ReplayError::RequestDiverged {
                effect_id,
                recorded,
                observed,
            } => ReplayErrorV::RequestDiverged {
                effect_id: effect_id@,
                recorded: recorded@,
                observed: observed@,
            },
        }
    }
}

/// The location that a call event carries, if it is of the expected kind.
pub open spec fn required(
    effect: Option<EffectLocationV>,
    expected: EffectKind,
    op_id: u64,
) -> Result<
    EffectLocationV,
    ReplayErrorV,
> {
    match effect {
        None => Err(ReplayErrorV::NoIdentity { kind: expected, op_id }),
        Some(location) => if location.kind != expected {
            Err(ReplayErrorV::WrongKind { expected, op_id, found: location })
        } else {
            Ok(location)
        },
    }
}

fn require_effect(effect: &Option<EffectLocation>, expected: EffectKind, op_id: u64) -> (r: Result<
    EffectLocation,
    ReplayError,
>)
    ensures
        match (r, required(trace::opt_effect_location(*effect), expected, op_id)) {
            (Ok(a), Ok(b)) => a@ == b,
            (Err(a), Err(b)) => a@ == b,
            _ => false,
        },
{
    match effect {
        None => Err(ReplayError::NoIdentity { kind: expected, op_id }),
        Some(location) => if location.kind != expected {
            Err(ReplayError::WrongKind { expected, op_id, found: location.clone() })
        } else {
            Ok(location.clone())
        },
    }
}

/// An index that keeps an outcome for later.
pub open spec fn put_aside(x: IndexV, e: EventV) -> IndexV {
    IndexV { early: x.early.push(e), ..x }
}

/// The index after one more event.  A call is kept under the effect that it
/// carries, a result or an error under the effect of its operation; one whose
/// operation is not known yet is put aside, and other events are passed over.
pub open spec fn record(x: IndexV, e: EventV) -> Result<IndexV, ReplayErrorV> {
    match e {
        EventV::InferCall { op_id, model, effect, .. } => match required(
            effect,
            EffectKind::Infer,
            op_id,
        ) {
            Ok(location) => Ok(
                IndexV {
                    trace: IrReplayTraceV {
                        infer_calls: x.trace.infer_calls.insert(
                            location.effect_id,
                            IrInferCallV { location, model },
                        ),
                        ..x.trace
                    },
                    ops: x.ops.insert(op_id, location.effect_id),
                    ..x
                },
            ),
            Err(e) => Err(e),
        },
        EventV::InferResult {
            op_id,
            response: Some(response),
            ..
        } => if x.ops.dom().contains(op_id) {
            Ok(
                IndexV {
                    trace: IrReplayTraceV {
                        infer_results: x.trace.infer_results.insert(x.ops[op_id], response),
                        ..x.trace
                    },
                    ..x
                },
            )
        } else {
            Ok(put_aside(x, e))
        },
        EventV::InferError { op_id, error, .. } => if x.ops.dom().contains(op_id) {
            Ok(
                IndexV {
                    trace: IrReplayTraceV {
                        infer_errors: x.trace.infer_errors.insert(x.ops[op_id], error),
                        ..x.trace
                    },
                    ..x
                },
            )
        } else {
            Ok(put_aside(x, e))
        },
        EventV::EvalCall { op_id, command, argv, effect, .. } => match required(
            effect,
            EffectKind::Eval,
            op_id,
        ) {
            Ok(location) => Ok(
                IndexV {
                    trace: IrReplayTraceV {
                        eval_calls: x.trace.eval_calls.insert(
                            location.effect_id,
                            IrEvalCallV { location, command, argv },
                        ),
                        ..x.trace
                    },
                    ops: x.ops.insert(op_id, location.effect_id),
                    ..x
                },
            ),
            Err(e) => Err(e),
        },
        EventV::EvalResult { op_id, result, .. } => if x.ops.dom().contains(op_id) {
            Ok(
                IndexV {
                    trace: IrReplayTraceV {
                        eval_results: x.trace.eval_results.insert(x.ops[op_id], result),
                        ..x.trace
                    },
                    ..x
                },
            )
        } else {
            Ok(put_aside(x, e))
        },
        EventV::EvalError { op_id, error, .. } => if x.ops.dom().contains(op_id) {
            Ok(
                IndexV {
                    trace: IrReplayTraceV {
                        eval_errors: x.trace.eval_errors.insert(x.ops[op_id], error),
                        ..x.trace
                    },
                    ..x
                },
            )
        } else {
            Ok(put_aside(x, e))
        },
        EventV::RetrieveCall { op_id, query, kind, max_bytes, effect, .. } => match required(
            effect,
            EffectKind::Retrieve,
            op_id,
        ) {
            Ok(location) => Ok(
                IndexV {
                    trace: IrReplayTraceV {
                        retrieve_calls: x.trace.retrieve_calls.insert(
                            location.effect_id,
                            IrRetrieveCallV { query, kind, max_bytes },
                        ),
                        ..x.trace
                    },
                    ops: x.ops.insert(op_id, location.effect_id),
                    ..x
                },
            ),
            Err(e) => Err(e),
        },
        EventV::RetrieveResult { op_id, results, .. } => if x.ops.dom().contains(op_id) {
            Ok(
                IndexV {
                    trace: IrReplayTraceV {
                        retrieve_results: x.trace.retrieve_results.insert(x.ops[op_id], results),
                        ..x.trace
                    },
                    ..x
                },
            )
        } else {
            Ok(put_aside(x, e))
        },
        EventV::RetrieveError { op_id, error, .. } => if x.ops.dom().contains(op_id) {
            Ok(
                IndexV {
                    trace: IrReplayTraceV {
                        retrieve_errors: x.trace.retrieve_errors.insert(x.ops[op_id], error),
                        ..x.trace
                    },
                    ..x
                },
            )
        } else {
            Ok(put_aside(x, e))
        },
        EventV::StoreCall {
            op_id,
            sink,
            store_op,
            store_id,
            content_hash,
            effect,
            ..
        } => match required(
            effect,
            EffectKind::Store,
            op_id,
        ) {
            Ok(location) => Ok(
                IndexV {
                    trace: IrReplayTraceV {
                        store_calls: x.trace.store_calls.insert(
                            location.effect_id,
                            IrStoreCallV { sink, op: store_op, id: store_id, content_hash },
                        ),
                        ..x.trace
                    },
                    ops: x.ops.insert(op_id, location.effect_id),
                    ..x
                },
            ),
            Err(e) => Err(e),
        },
        EventV::StoreResult { op_id, sink_id, .. } => if x.ops.dom().contains(op_id) {
            Ok(
                IndexV {
                    trace: IrReplayTraceV {
                        store_results: x.trace.store_results.insert(x.ops[op_id], sink_id),
                        ..x.trace
                    },
                    ..x
                },
            )
        } else {
            Ok(put_aside(x, e))
        },
        EventV::StoreError { op_id, error, .. } => if x.ops.dom().contains(op_id) {
            Ok(
                IndexV {
                    trace: IrReplayTraceV {
                        store_errors: x.trace.store_errors.insert(x.ops[op_id], error),
                        ..x.trace
                    },
                    ..x
                },
            )
        } else {
            Ok(put_aside(x, e))
        },
        EventV::ToolCall { op_id, name, arguments, effect, .. } => match required(
            effect,
            EffectKind::Tool,
            op_id,
        ) {
            Ok(location) => Ok(
                IndexV {
                    trace: IrReplayTraceV {
                        tool_calls: x.trace.tool_calls.insert(
                            location.effect_id,
                            IrToolCallV { location, name, arguments },
                        ),
                        ..x.trace
                    },
                    ops: x.ops.insert(op_id, location.effect_id),
                    ..x
                },
            ),
            Err(e) => Err(e),
        },
        EventV::ToolResult { op_id, result, .. } => if x.ops.dom().contains(op_id) {
            Ok(
                IndexV {
                    trace: IrReplayTraceV {
                        tool_results: x.trace.tool_results.insert(x.ops[op_id], result),
                        ..x.trace
                    },
                    ..x
                },
            )
        } else {
            Ok(put_aside(x, e))
        },
        EventV::ToolError { op_id, error, .. } => if x.ops.dom().contains(op_id) {
            Ok(
                IndexV {
                    trace: IrReplayTraceV {
                        tool_errors: x.trace.tool_errors.insert(x.ops[op_id], error),
                        ..x.trace
                    },
                    ..x
                },
            )
        } else {
            Ok(put_aside(x, e))
        },
        EventV::Custom { name, data, .. } => if name == "output_contract"@
            && data.text_field("schema_hash"@) is Some {
            Ok(
                IndexV {
                    trace: IrReplayTraceV {
                        output_schema: data.text_field("schema_hash"@),
                        ..x.trace
                    },
                    ..x
                },
            )
        } else {
            Ok(x)
        },
        EventV::ApprovalRequested { pending_id, kind, request, effect, .. } => Ok(
            IndexV {
                trace: IrReplayTraceV {
                    approval_requests: x.trace.approval_requests.insert(
                        effect.effect_id,
                        IrApprovalRequestedV { pending_id, kind, request },
                    ),
                    ..x.trace
                },
                ..x
            },
        ),
        EventV::ApprovalResolved { pending_id, effect_id, decision, resolved_by, reason, .. } => Ok(
            IndexV {
                trace: IrReplayTraceV {
                    approval_resolutions: x.trace.approval_resolutions.insert(
                        effect_id,
                        IrApprovalResolvedV { pending_id, decision, resolved_by, reason },
                    ),
                    ..x.trace
                },
                ..x
            },
        ),
        _ => Ok(x),
    }
}

/// The index of no event.
pub open spec fn blank() -> IndexV {
    IndexV { trace: nothing_recorded(), ops: Map::empty(), early: Seq::empty() }
}

/// The index after further events.
pub open spec fn indexed_from(x: IndexV, events: Seq<EventV>) -> Result<IndexV, ReplayErrorV>
    decreases events.len(),
{
    if events.len() == 0 {
        Ok(x)
    } else {
        match indexed_from(x, events.drop_last()) {
            Ok(y) => record(y, events.last()),
            Err(e) => Err(e),
        }
    }
}

/// The index after the outcomes that were put aside.
pub open spec fn caught_up(x: IndexV) -> Result<IndexV, ReplayErrorV> {
    indexed_from(IndexV { early: Seq::empty(), ..x }, x.early)
}

/// The index of a list of events.  An outcome belongs to the call of its
/// operation that came last before it, or else to the one that comes after.
pub open spec fn indexed(events: Seq<EventV>) -> Result<IndexV, ReplayErrorV> {
    match indexed_from(blank(), events) {
        Ok(x) => caught_up(x),
        Err(e) => Err(e),
    }
}

/// The models of a list of events.
pub open spec fn events_of(list: Seq<Event>) -> Seq<EventV> {
    Seq::new(list.len(), |i: int| list[i]@)
}

/// The events at some places.
pub open spec fn at_places(events: Seq<EventV>, places: Seq<usize>) -> Seq<EventV> {
    Seq::new(places.len(), |i: int| events[places[i] as int])
}

/// The map that a list of operations and their effects stands for.
pub open spec fn ops_of(list: Seq<(u64, String)>) -> Map<u64, Seq<char>>
    decreases list.len(),
{
    if list.len() == 0 {
        Map::empty()
    } else {
        ops_of(list.drop_last()).insert(list.last().0, list.last().1@)
    }
}

/// The effect that an operation carried out.
fn effect_of(list: &Vec<(u64, String)>, op_id: u64) -> (r: Option<String>)
    ensures
        match r {
            Some(s) => ops_of(list@).dom().contains(op_id) && ops_of(list@)[op_id] == s@,
            None => !ops_of(list@).dom().contains(op_id),
        },
{
    let mut i: usize = list.len();
    assert(list@.take(i as int) =~= list@);
    while i > 0
        invariant
            i <= list@.len(),
            ops_of(list@).dom().contains(op_id) == ops_of(list@.take(i as int)).dom().contains(
                op_id,
            ),
            ops_of(list@).dom().contains(op_id) ==> ops_of(list@)[op_id] == ops_of(
                list@.take(i as int),
            )[op_id],
        decreases i,
    {
        i -= 1;
        assert(list@.take(i + 1).drop_last() =~= list@.take(i as int));
        if list[i].0 == op_id {
            return Some(list[i].1.clone());
        }
    }
    None
}

broadcast proof fn mapped_insert<V, W>(m: Map<Seq<char>, V>, k: Seq<char>, v: V, f: spec_fn(V) -> W)
    ensures
        #[trigger] m.insert(k, v).map_values(f) == m.map_values(f).insert(k, f(v)),
{
    assert(m.insert(k, v).map_values(f) =~= m.map_values(f).insert(k, f(v)));
}

/// Takes one more event into an index, or says that it has to be put aside.
fn record_event(
    trace: &mut IrReplayTrace,
    ops: &mut Vec<(u64, String)>,
    event: &Event,
    Ghost(early): Ghost<Seq<EventV>>,
) -> (r: Result<
    bool,
    ReplayError,
>)
    ensures
        match (r, record(IndexV { trace: old(trace)@, ops: ops_of(old(ops)@), early }, event@)) {
            (Ok(aside), Ok(x)) => final(trace)@ == x.trace && ops_of(final(ops)@) == x.ops
                && x.early == if aside {
                early.push(event@)
            } else {
                early
            },
            (Err(e), Err(x)) => e@ == x,
            _ => false,
        },
{
    broadcast use mapped_insert;

    match event {
        Event::InferCall { op_id, model, effect, .. } => {
            let location = require_effect(effect, EffectKind::Infer, *op_id)?;
            let effect_id = location.effect_id.clone();
            let call = IrInferCall { location, model: model.clone() };
            set_entry(&mut trace.infer_calls, effect_id.clone(), call);
            let ghost before = ops@;
            ops.push((*op_id, effect_id));
            assert(ops@.drop_last() =~= before);
            Ok(false)
        },
        Event::InferResult { op_id, response, .. } => match response {
            Some(response) => match effect_of(ops, *op_id) {
                Some(effect_id) => {
                    set_entry(&mut trace.infer_results, effect_id, response.clone());
                    Ok(false)
                },
                None => Ok(true),
            },
            None => Ok(false),
        },
        Event::InferError { op_id, error, .. } => match effect_of(ops, *op_id) {
            Some(effect_id) => {
                set_entry(&mut trace.infer_errors, effect_id, error.clone());
                Ok(false)
            },
            None => Ok(true),
        },
        Event::EvalCall { op_id, command, argv, effect, .. } => {
            let location = require_effect(effect, EffectKind::Eval, *op_id)?;
            let effect_id = location.effect_id.clone();
            let call = IrEvalCall {
                location,
                command: command.clone(),
                argv: copy_opt_strings(argv),
            };
            set_entry(&mut trace.eval_calls, effect_id.clone(), call);
            let ghost before = ops@;
            ops.push((*op_id, effect_id));
            assert(ops@.drop_last() =~= before);
            Ok(false)
        },
        Event::EvalResult { op_id, result, .. } => match effect_of(ops, *op_id) {
            Some(effect_id) => {
                set_entry(&mut trace.eval_results, effect_id, result.clone());
                Ok(false)
            },
            None => Ok(true),
        },
        Event::EvalError { op_id, error, .. } => match effect_of(ops, *op_id) {
            Some(effect_id) => {
                set_entry(&mut trace.eval_errors, effect_id, error.clone());
                Ok(false)
            },
            None => Ok(true),
        },
        Event::RetrieveCall { op_id, query, kind, max_bytes, effect, .. } => {
            let location = require_effect(effect, EffectKind::Retrieve, *op_id)?;
            let effect_id = location.effect_id.clone();
            let call = IrRetrieveCall {
                query: query.clone(),
                kind: copy_opt(kind),
                max_bytes: *max_bytes,
            };
            set_entry(&mut trace.retrieve_calls, effect_id.clone(), call);
            let ghost before = ops@;
            ops.push((*op_id, effect_id));
            assert(ops@.drop_last() =~= before);
            Ok(false)
        },
        Event::RetrieveResult { op_id, results, .. } => match effect_of(ops, *op_id) {
            Some(effect_id) => {
                set_entry(&mut trace.retrieve_results, effect_id, results.clone());
                Ok(false)
            },
            None => Ok(true),
        },
        Event::RetrieveError { op_id, error, .. } => match effect_of(ops, *op_id) {
            Some(effect_id) => {
                set_entry(&mut trace.retrieve_errors, effect_id, error.clone());
                Ok(false)
            },
            None => Ok(true),
        },
        Event::StoreCall { op_id, sink, store_op, store_id, content_hash, effect, .. } => {
            let location = require_effect(effect, EffectKind::Store, *op_id)?;
            let effect_id = location.effect_id.clone();
            let call = IrStoreCall {
                sink: sink.clone(),
                op: store_op.clone(),
                id: copy_opt(store_id),
                content_hash: content_hash.clone(),
            };
            set_entry(&mut trace.store_calls, effect_id.clone(), call);
            let ghost before = ops@;
            ops.push((*op_id, effect_id));
            assert(ops@.drop_last() =~= before);
            Ok(false)
        },
        Event::StoreResult { op_id, sink_id, .. } => match effect_of(ops, *op_id) {
            Some(effect_id) => {
                set_entry(&mut trace.store_results, effect_id, sink_id.clone());
                Ok(false)
            },
            None => Ok(true),
        },
        Event::StoreError { op_id, error, .. } => match effect_of(ops, *op_id) {
            Some(effect_id) => {
                set_entry(&mut trace.store_errors, effect_id, error.clone());
                Ok(false)
            },
            None => Ok(true),
        },
        Event::ToolCall { op_id, name, arguments, effect, .. } => {
            let location = require_effect(effect, EffectKind::Tool, *op_id)?;
            let effect_id = location.effect_id.clone();
            let call = IrToolCall { location, name: name.clone(), arguments: arguments.clone() };
            set_entry(&mut trace.tool_calls, effect_id.clone(), call);
            let ghost before = ops@;
            ops.push((*op_id, effect_id));
            assert(ops@.drop_last() =~= before);
            Ok(false)
        },
        Event::ToolResult { op_id, result, .. } => match effect_of(ops, *op_id) {
            Some(effect_id) => {
                set_entry(&mut trace.tool_results, effect_id, result.clone());
                Ok(false)
            },
            None => Ok(true),
        },
        Event::ToolError { op_id, error, .. } => match effect_of(ops, *op_id) {
            Some(effect_id) => {
                set_entry(&mut trace.tool_errors, effect_id, error.clone());
                Ok(false)
            },
            None => Ok(true),
        },
        Event::Custom { name, data, .. } => {
            if same_text(name.as_str(), OUTPUT_CONTRACT_EVENT) {
                match data.get_str("schema_hash") {
                    Some(hash) => {
                        trace.output_schema = Some(hash.to_owned());
                    },
                    None => {},
                }
            }
            Ok(false)
        },
        Event::ApprovalRequested { pending_id, kind, request, effect, .. } => {
            set_entry(
                &mut trace.approval_requests,
                effect.effect_id.clone(),
                IrApprovalRequested {
                    pending_id: pending_id.clone(),
                    kind: kind.clone(),
                    request: request.clone(),
                },
            );
            Ok(false)
        },
        Event::ApprovalResolved { pending_id, effect_id, decision, resolved_by, reason, .. } => {
            set_entry(
                &mut trace.approval_resolutions,
                effect_id.clone(),
                IrApprovalResolved {
                    pending_id: pending_id.clone(),
                    decision: decision.clone(),
                    resolved_by: copy_opt(resolved_by),
                    reason: copy_opt(reason),
                },
            );
            Ok(false)
        },
        _ => Ok(false),
    }
}

/// How an effect is placed in a replay error.
pub open spec fn location_text(l: EffectLocationV) -> Seq<char> {
    "block "@ + ir_flow::label_text(l.site.block.0) + " instruction "@ + text::decimal(
        l.site.instruction_index as nat,
    ) + " (visit "@ + text::decimal(l.dynamic_path.visit as nat) + ", control path "@ + (
    if l.dynamic_path.path.len() == 0 {
        "entry"@
    } else {
        text::prefix(l.dynamic_path.path, 12) + "... after "@ + text::decimal(
            l.dynamic_path.transitions as nat,
        ) + " transitions"@
    }) + ")"@
}

fn location_desc(l: &EffectLocation) -> (r: String)
    ensures
        r@ == location_text(l@),
{
    let path = if l.dynamic_path.path.as_str().is_empty() {
        "entry".to_owned()
    } else {
        let mut p = preview(l.dynamic_path.path.as_str(), 12);
        p.append("... after ");
        p.append(decimal_of(l.dynamic_path.transitions as u128).as_str());
        p.append(" transitions");
        p
    };
    let mut out = "block ".to_owned();
    out.append(show_label(l.site.block).as_str());
    out.append(" instruction ");
    out.append(decimal_of(l.site.instruction_index as u128).as_str());
    out.append(" (visit ");
    out.append(decimal_of(l.dynamic_path.visit as u128).as_str());
    out.append(", control path ");
    out.append(path.as_str());
    out.append(")");
    out
}

/// What a recording answers to an inference.  The recorded call must be the
/// observed one; a recorded failure fails again.
pub open spec fn infer_answer(
    t: IrReplayTraceV,
    location: EffectLocationV,
    model: Seq<char>,
) -> Result<
    ResponseV,
    ReplayErrorV,
> {
    let id = location.effect_id;
    let call = t.infer_calls[id];
    if !t.infer_calls.dom().contains(id) {
        Err(ReplayErrorV::MissingCall { kind: EffectKind::Infer, location })
    } else if call.model != model {
        Err(ReplayErrorV::InferDiverged { effect_id: id, recorded: call, model })
    } else if t.infer_errors.dom().contains(id) {
        Err(
            ReplayErrorV::Failed {
                kind: EffectKind::Infer,
                effect_id: id,
                error: t.infer_errors[id],
            },
        )
    } else if t.infer_results.dom().contains(id) {
        Ok(t.infer_results[id])
    } else {
        Err(ReplayErrorV::MissingResult { kind: EffectKind::Infer, effect_id: id })
    }
}

/// What a recording answers to an evaluation.  The recorded call must be the
/// observed one; a recorded failure fails again.
pub open spec fn eval_answer(
    t: IrReplayTraceV,
    location: EffectLocationV,
    command: Seq<char>,
    argv: Option<Seq<Seq<char>>>,
) -> Result<
    JsonV,
    ReplayErrorV,
> {
    let id = location.effect_id;
    let call = t.eval_calls[id];
    if !t.eval_calls.dom().contains(id) {
        Err(ReplayErrorV::MissingCall { kind: EffectKind::Eval, location })
    } else if call.command != command || call.argv != argv {
        Err(ReplayErrorV::EvalDiverged { effect_id: id, recorded: call, command, argv })
    } else if t.eval_errors.dom().contains(id) {
        Err(
            ReplayErrorV::Failed {
                kind: EffectKind::Eval,
                effect_id: id,
                error: t.eval_errors[id],
            },
        )
    } else if t.eval_results.dom().contains(id) {
        Ok(t.eval_results[id])
    } else {
        Err(ReplayErrorV::MissingResult { kind: EffectKind::Eval, effect_id: id })
    }
}

/// What a recording answers to a retrieval.  The recorded call must be the
/// observed one; a recorded failure fails again.
pub open spec fn retrieve_answer(
    t: IrReplayTraceV,
    location: EffectLocationV,
    key: IrRetrieveCallV,
) -> Result<
    JsonV,
    ReplayErrorV,
> {
    let id = location.effect_id;
    let call = t.retrieve_calls[id];
    if !t.retrieve_calls.dom().contains(id) {
        Err(ReplayErrorV::MissingCall { kind: EffectKind::Retrieve, location })
    } else if call != key {
        Err(ReplayErrorV::RetrieveDiverged { effect_id: id, recorded: call, observed: key })
    } else if t.retrieve_errors.dom().contains(id) {
        Err(
            ReplayErrorV::Failed {
                kind: EffectKind::Retrieve,
                effect_id: id,
                error: t.retrieve_errors[id],
            },
        )
    } else if t.retrieve_results.dom().contains(id) {
        Ok(t.retrieve_results[id])
    } else {
        Err(ReplayErrorV::MissingResult { kind: EffectKind::Retrieve, effect_id: id })
    }
}

/// What a recording answers to a store.  The recorded call must be the
/// observed one; a recorded failure fails again.
pub open spec fn store_answer(
    t: IrReplayTraceV,
    location: EffectLocationV,
    key: IrStoreCallV,
) -> Result<
    Seq<char>,
    ReplayErrorV,
> {
    let id = location.effect_id;
    let call = t.store_calls[id];
    if !t.store_calls.dom().contains(id) {
        Err(ReplayErrorV::MissingCall { kind: EffectKind::Store, location })
    } else if call != key {
        Err(ReplayErrorV::StoreDiverged { effect_id: id, recorded: call, observed: key })
    } else if t.store_errors.dom().contains(id) {
        Err(
            ReplayErrorV::Failed {
                kind: EffectKind::Store,
                effect_id: id,
                error: t.store_errors[id],
            },
        )
    } else if t.store_results.dom().contains(id) {
        Ok(t.store_results[id])
    } else {
        Err(ReplayErrorV::MissingResult { kind: EffectKind::Store, effect_id: id })
    }
}

/// What a recording answers to a tool call.  The recorded call must be the
/// observed one; a recorded failure fails again.
pub open spec fn tool_answer(
    t: IrReplayTraceV,
    location: EffectLocationV,
    name: Seq<char>,
    arguments: JsonV,
) -> Result<
    JsonV,
    ReplayErrorV,
> {
    let id = location.effect_id;
    let call = t.tool_calls[id];
    if !t.tool_calls.dom().contains(id) {
        Err(ReplayErrorV::MissingCall { kind: EffectKind::Tool, location })
    } else if call.name != name || !json::same(call.arguments, arguments) {
        Err(ReplayErrorV::ToolDiverged { effect_id: id, recorded: call, name, arguments })
    } else if t.tool_errors.dom().contains(id) {
        Err(
            ReplayErrorV::Failed {
                kind: EffectKind::Tool,
                effect_id: id,
                error: t.tool_errors[id],
            },
        )
    } else if t.tool_results.dom().contains(id) {
        Ok(t.tool_results[id])
    } else {
        Err(ReplayErrorV::MissingResult { kind: EffectKind::Tool, effect_id: id })
    }
}

/// Whether two lists of strings are the same.
fn same_strings(x: &Vec<String>, y: &Vec<String>) -> (r: bool)
    ensures
        r == (op::texts(x@) == op::texts(y@)),
{
    if x.len() != y.len() {
        assert(op::texts(x@).len() != op::texts(y@).len());
        return false;
    }
    let mut i: usize = 0;
    while i < x.len()
        invariant
            i <= x@.len(),
            x@.len() == y@.len(),
            forall|j: int| 0 <= j < i ==> (#[trigger] x@[j])@ == y@[j]@,
        decreases x@.len() - i,
    {
        if x[i] != y[i] {
            assert(op::texts(x@)[i as int] != op::texts(y@)[i as int]);
            return false;
        }
        i += 1;
    }
    assert(op::texts(x@) =~= op::texts(y@));
    true
}

/// Whether two optional lists of strings are the same.
fn same_argv(a: &Option<Vec<String>>, b: &Option<Vec<String>>) -> (r: bool)
    ensures
        r == (ir::opt_texts(*a) == ir::opt_texts(*b)),
{
    match (a, b) {
        (None, None) => true,
        (Some(x), Some(y)) => same_strings(x, y),
        _ => false,
    }
}

impl IrRetrieveCall {
    pub fn equals(&self, other: &IrRetrieveCall) -> (r: bool)
        ensures
            r == (self@ == other@),
    {
        self.query == other.query && same_opt(&self.kind, &other.kind) && self.max_bytes
            == other.max_bytes
    }
}

impl IrStoreCall {
    pub fn equals(&self, other: &IrStoreCall) -> (r: bool)
        ensures
            r == (self@ == other@),
    {
        self.sink == other.sink && self.op == other.op && same_opt(&self.id, &other.id)
            && self.content_hash == other.content_hash
    }
}

impl IrReplayTrace {
    /// An index that holds nothing.
    pub fn new() -> (r: IrReplayTrace)
        ensures
            r@ == nothing_recorded(),
    {
        let r = IrReplayTrace {
            infer_calls: Vec::new(),
            infer_results: Vec::new(),
            infer_errors: Vec::new(),
            eval_calls: Vec::new(),
            eval_results: Vec::new(),
            eval_errors: Vec::new(),
            retrieve_calls: Vec::new(),
            retrieve_results: Vec::new(),
            retrieve_errors: Vec::new(),
            store_calls: Vec::new(),
            store_results: Vec::new(),
            store_errors: Vec::new(),
            tool_calls: Vec::new(),
            tool_results: Vec::new(),
            tool_errors: Vec::new(),
            approval_requests: Vec::new(),
            approval_resolutions: Vec::new(),
            output_schema: None,
        };
        assert(r@ =~= nothing_recorded());
        r
    }

    /// The index of the events of a run.  Results and errors are paired with
    /// their calls by operation alone, wherever they stand.
    pub fn from_events(events: &Vec<Event>) -> (r: Result<IrReplayTrace, ReplayError>)
        ensures
            match (r, indexed(events_of(events@))) {
                (Ok(t), Ok(x)) => t@ == x.trace,
                (Err(e), Err(x)) => e@ == x,
                _ => false,
            },
    {
        let mut replay = IrReplayTrace::new();
        let mut ops: Vec<(u64, String)> = Vec::new();
        let mut aside: Vec<usize> = Vec::new();
        let ghost all = events_of(events@);
        let mut i: usize = 0;
        assert(at_places(all, aside@) =~= Seq::empty());
        while i < events.len()
            invariant
                i <= events@.len(),
                all == events_of(events@),
                forall|k: int| 0 <= k < aside@.len() ==> #[trigger] aside@[k] < events@.len(),
                indexed_from(blank(), all.take(i as int)) == Ok::<IndexV, ReplayErrorV>(
                    IndexV {
                        trace: replay@,
                        ops: ops_of(ops@),
                        early: at_places(all, aside@),
                    },
                ),
            decreases events@.len() - i,
        {
            let ghost early = at_places(all, aside@);
            assert(all.take(i + 1).drop_last() =~= all.take(i as int));
            match record_event(&mut replay, &mut ops, &events[i], Ghost(early)) {
                Ok(later) => {
                    if later {
                        aside.push(i);
                        assert(at_places(all, aside@) =~= early.push(all[i as int]));
                    }
                },
                Err(e) => {
                    proof {
                        failure_stays(blank(), all, i + 1);
                    }
                    return Err(e);
                },
            }
            i += 1;
        }
        assert(all.take(i as int) =~= all);
        let ghost late = at_places(all, aside@);
        let ghost start = IndexV { trace: replay@, ops: ops_of(ops@), early: Seq::empty() };
        let ghost mut unknown: Seq<EventV> = Seq::empty();
        let mut k: usize = 0;
        while k < aside.len()
            invariant
                k <= aside@.len(),
                all == events_of(events@),
                late == at_places(all, aside@),
                forall|k: int| 0 <= k < aside@.len() ==> #[trigger] aside@[k] < events@.len(),
                indexed(all) == indexed_from(start, late),
                indexed_from(start, late.take(k as int)) == Ok::<IndexV, ReplayErrorV>(
                    IndexV { trace: replay@, ops: ops_of(ops@), early: unknown },
                ),
            decreases aside@.len() - k,
        {
            assert(late.take(k + 1).drop_last() =~= late.take(k as int));
            let at = aside[k];
            match record_event(&mut replay, &mut ops, &events[at], Ghost(unknown)) {
                Ok(still) => {
                    proof {
                        if still {
                            unknown = unknown.push(late[k as int]);
                        }
                    }
                },
                Err(e) => {
                    proof {
                        failure_stays(start, late, k + 1);
                    }
                    return Err(e);
                },
            }
            k += 1;
        }
        assert(late.take(k as int) =~= late);
        Ok(replay)
    }

    /// The hash of the output schema that the run was held to, if any.
    pub fn output_schema_hash(&self) -> (r: Option<&str>)
        ensures
            match r {
                Some(s) => self@.output_schema == Some(s@),
                None => self@.output_schema is None,
            },
    {
        match &self.output_schema {
            Some(s) => Some(s.as_str()),
            None => None,
        }
    }

    /// What the recording answers to an inference.
    pub fn infer_result(
        &self,
        location: &EffectLocation,
        model: &str,
    ) -> (r: Result<Response, ReplayError>)
        ensures
            match (r, infer_answer(self@, location@, model@)) {
                (Ok(a), Ok(b)) => a@ == b,
                (Err(a), Err(b)) => a@ == b,
                _ => false,
            },
    {
        let id = &location.effect_id;
        let call = match get_entry(&self.infer_calls, id.as_str()) {
            Some(call) => call,
            None => {
                return Err(
                    ReplayError::MissingCall {
                        kind: EffectKind::Infer,
                        location: location.clone(),
                    },
                );
            },
        };
        if !same_text(call.model.as_str(), model) {
            return Err(
                ReplayError::InferDiverged {
                    effect_id: id.clone(),
                    recorded: call.clone(),
                    model: model.to_owned(),
                },
            );
        }
        match get_entry(&self.infer_errors, id.as_str()) {
            Some(error) => {
                return Err(
                    ReplayError::Failed {
                        kind: EffectKind::Infer,
                        effect_id: id.clone(),
                        error: error.clone(),
                    },
                );
            },
            None => {},
        }
        match get_entry(&self.infer_results, id.as_str()) {
            Some(result) => Ok(result.clone()),
            None => Err(
                ReplayError::MissingResult { kind: EffectKind::Infer, effect_id: id.clone() },
            ),
        }
    }

    /// What the recording answers to an evaluation.
    pub fn eval_result(
        &self,
        location: &EffectLocation,
        command: &str,
        argv: &Option<Vec<String>>,
    ) -> (r: Result<Json, ReplayError>)
        ensures
            match (r, eval_answer(self@, location@, command@, ir::opt_texts(*argv))) {
                (Ok(a), Ok(b)) => a@ == b,
                (Err(a), Err(b)) => a@ == b,
                _ => false,
            },
    {
        let id = &location.effect_id;
        let call = match get_entry(&self.eval_calls, id.as_str()) {
            Some(call) => call,
            None => {
                return Err(
                    ReplayError::MissingCall {
                        kind: EffectKind::Eval,
                        location: location.clone(),
                    },
                );
            },
        };
        if !same_text(call.command.as_str(), command) || !same_argv(&call.argv, argv) {
            return Err(
                ReplayError::EvalDiverged {
                    effect_id: id.clone(),
                    recorded: call.clone(),
                    command: command.to_owned(),
                    argv: copy_opt_strings(argv),
                },
            );
        }
        match get_entry(&self.eval_errors, id.as_str()) {
            Some(error) => {
                return Err(
                    ReplayError::Failed {
                        kind: EffectKind::Eval,
                        effect_id: id.clone(),
                        error: error.clone(),
                    },
                );
            },
            None => {},
        }
        match get_entry(&self.eval_results, id.as_str()) {
            Some(result) => Ok(result.clone()),
            None => Err(
                ReplayError::MissingResult { kind: EffectKind::Eval, effect_id: id.clone() },
            ),
        }
    }

    /// What the recording answers to a retrieval.
    pub fn retrieve_result(
        &self,
        location: &EffectLocation,
        key: &IrRetrieveCall,
    ) -> (r: Result<Json, ReplayError>)
        ensures
            match (r, retrieve_answer(self@, location@, key@)) {
                (Ok(a), Ok(b)) => a@ == b,
                (Err(a), Err(b)) => a@ == b,
                _ => false,
            },
    {
        let id = &location.effect_id;
        let call = match get_entry(&self.retrieve_calls, id.as_str()) {
            Some(call) => call,
            None => {
                return Err(
                    ReplayError::MissingCall {
                        kind: EffectKind::Retrieve,
                        location: location.clone(),
                    },
                );
            },
        };
        if !call.equals(key) {
            return Err(
                ReplayError::RetrieveDiverged {
                    effect_id: id.clone(),
                    recorded: call.clone(),
                    observed: key.clone(),
                },
            );
        }
        match get_entry(&self.retrieve_errors, id.as_str()) {
            Some(error) => {
                return Err(
                    ReplayError::Failed {
                        kind: EffectKind::Retrieve,
                        effect_id: id.clone(),
                        error: error.clone(),
                    },
                );
            },
            None => {},
        }
        match get_entry(&self.retrieve_results, id.as_str()) {
            Some(result) => Ok(result.clone()),
            None => Err(
                ReplayError::MissingResult { kind: EffectKind::Retrieve, effect_id: id.clone() },
            ),
        }
    }

    /// What the recording answers to a store.
    pub fn store_result(
        &self,
        location: &EffectLocation,
        key: &IrStoreCall,
    ) -> (r: Result<String, ReplayError>)
        ensures
            match (r, store_answer(self@, location@, key@)) {
                (Ok(a), Ok(b)) => a@ == b,
                (Err(a), Err(b)) => a@ == b,
                _ => false,
            },
    {
        let id = &location.effect_id;
        let call = match get_entry(&self.store_calls, id.as_str()) {
            Some(call) => call,
            None => {
                return Err(
                    ReplayError::MissingCall {
                        kind: EffectKind::Store,
                        location: location.clone(),
                    },
                );
            },
        };
        if !call.equals(key) {
            return Err(
                ReplayError::StoreDiverged {
                    effect_id: id.clone(),
                    recorded: call.clone(),
                    observed: key.clone(),
                },
            );
        }
        match get_entry(&self.store_errors, id.as_str()) {
            Some(error) => {
                return Err(
                    ReplayError::Failed {
                        kind: EffectKind::Store,
                        effect_id: id.clone(),
                        error: error.clone(),
                    },
                );
            },
            None => {},
        }
        match get_entry(&self.store_results, id.as_str()) {
            Some(result) => Ok(result.clone()),
            None => Err(
                ReplayError::MissingResult { kind: EffectKind::Store, effect_id: id.clone() },
            ),
        }
    }

    /// What the recording answers to a tool call.
    pub fn tool_result(
        &self,
        location: &EffectLocation,
        name: &str,
        arguments: &Json,
    ) -> (r: Result<Json, ReplayError>)
        ensures
            match (r, tool_answer(self@, location@, name@, arguments@)) {
                (Ok(a), Ok(b)) => a@ == b,
                (Err(a), Err(b)) => a@ == b,
                _ => false,
            },
    {
        let id = &location.effect_id;
        let call = match get_entry(&self.tool_calls, id.as_str()) {
            Some(call) => call,
            None => {
                return Err(
                    ReplayError::MissingCall {
                        kind: EffectKind::Tool,
                        location: location.clone(),
                    },
                );
            },
        };
        if !same_text(call.name.as_str(), name) || !same_json(&call.arguments, arguments) {
            return Err(
                ReplayError::ToolDiverged {
                    effect_id: id.clone(),
                    recorded: call.clone(),
                    name: name.to_owned(),
                    arguments: arguments.clone(),
                },
            );
        }
        match get_entry(&self.tool_errors, id.as_str()) {
            Some(error) => {
                return Err(
                    ReplayError::Failed {
                        kind: EffectKind::Tool,
                        effect_id: id.clone(),
                        error: error.clone(),
                    },
                );
            },
            None => {},
        }
        match get_entry(&self.tool_results, id.as_str()) {
            Some(result) => Ok(result.clone()),
            None => Err(
                ReplayError::MissingResult { kind: EffectKind::Tool, effect_id: id.clone() },
            ),
        }
    }

}

/// Once indexing has failed, later events do not mend it.
proof fn failure_stays(x: IndexV, events: Seq<EventV>, n: int)
    requires
        0 <= n <= events.len(),
        indexed_from(x, events.take(n)) is Err,
    ensures
        indexed_from(x, events) == indexed_from(x, events.take(n)),
    decreases events.len(),
{
    if n == events.len() {
        assert(events.take(n) =~= events);
    } else {
        assert(events.drop_last().take(n) =~= events.take(n));
        failure_stays(x, events.drop_last(), n);
    }
}

/// How an optional text is shown.
pub open spec fn shown_opt(s: Option<Seq<char>>) -> Seq<char> {
    match s {
        Some(t) => "Some("@ + text::quoted(t) + ")"@,
        None => "None"@,
    }
}

fn show_opt(s: &Option<String>) -> (r: String)
    ensures
        r@ == shown_opt(op::opt_text(*s)),
{
    match s {
        Some(t) => {
            let mut out = "Some(".to_owned();
            out.append(debug_quoted(t.as_str()).as_str());
            out.append(")");
            out
        },
        None => "None".to_owned(),
    }
}

/// How a list of texts is shown, up to its last item.
pub open spec fn shown_items(list: Seq<Seq<char>>) -> Seq<char>
    decreases list.len(),
{
    if list.len() == 0 {
        Seq::empty()
    } else if list.len() == 1 {
        text::quoted(list[0])
    } else {
        shown_items(list.drop_last()) + ", "@ + text::quoted(list.last())
    }
}

/// How an optional list of texts is shown.
pub open spec fn shown_argv(argv: Option<Seq<Seq<char>>>) -> Seq<char> {
    match argv {
        Some(list) => "Some(["@ + shown_items(list) + "])"@,
        None => "None"@,
    }
}

fn show_argv(argv: &Option<Vec<String>>) -> (r: String)
    ensures
        r@ == shown_argv(ir::opt_texts(*argv)),
{
    match argv {
        None => "None".to_owned(),
        Some(list) => {
            let ghost all = op::texts(list@);
            let mut items = String::new();
            let mut i: usize = 0;
            assert(items@ =~= shown_items(all.take(0)));
            while i < list.len()
                invariant
                    i <= list@.len(),
                    all == op::texts(list@),
                    items@ == shown_items(all.take(i as int)),
                decreases list@.len() - i,
            {
                assert(all.take(i + 1).drop_last() =~= all.take(i as int));
                if i > 0 {
                    items.append(", ");
                }
                items.append(debug_quoted(list[i].as_str()).as_str());
                if i == 0 {
                    assert(items@ =~= text::quoted(all[0]));
                }
                i += 1;
            }
            assert(all.take(i as int) =~= all);
            let mut out = "Some([".to_owned();
            out.append(items.as_str());
            out.append("])");
            out
        },
    }
}

/// How an optional size is shown.
pub open spec fn shown_size(n: Option<usize>) -> Seq<char> {
    match n {
        Some(x) => "Some("@ + text::decimal(x as nat) + ")"@,
        None => "None"@,
    }
}

/// How a retrieval is shown.
pub open spec fn shown_retrieve(c: IrRetrieveCallV) -> Seq<char> {
    "IrRetrieveCall { query: "@ + text::quoted(c.query) + ", kind: "@ + shown_opt(c.kind)
        + ", max_bytes: "@ + shown_size(c.max_bytes) + " }"@
}

fn show_retrieve(c: &IrRetrieveCall) -> (r: String)
    ensures
        r@ == shown_retrieve(c@),
{
    let mut out = "IrRetrieveCall { query: ".to_owned();
    out.append(debug_quoted(c.query.as_str()).as_str());
    out.append(", kind: ");
    out.append(show_opt(&c.kind).as_str());
    out.append(", max_bytes: ");
    let size = match c.max_bytes {
        Some(x) => {
            let mut s = "Some(".to_owned();
            s.append(decimal_of(x as u128).as_str());
            s.append(")");
            s
        },
        None => "None".to_owned(),
    };
    out.append(size.as_str());
    out.append(" }");
    out
}

/// How a store is shown.
pub open spec fn shown_store(c: IrStoreCallV) -> Seq<char> {
    "IrStoreCall { sink: "@ + text::quoted(c.sink) + ", op: "@ + text::quoted(c.op) + ", id: "@
        + shown_opt(c.id) + ", content_hash: "@ + text::quoted(c.content_hash) + " }"@
}

fn show_store(c: &IrStoreCall) -> (r: String)
    ensures
        r@ == shown_store(c@),
{
    let mut out = "IrStoreCall { sink: ".to_owned();
    out.append(debug_quoted(c.sink.as_str()).as_str());
    out.append(", op: ");
    out.append(debug_quoted(c.op.as_str()).as_str());
    out.append(", id: ");
    out.append(show_opt(&c.id).as_str());
    out.append(", content_hash: ");
    out.append(debug_quoted(c.content_hash.as_str()).as_str());
    out.append(" }");
    out
}

/// What is said where a call is missing from a recording.
pub const MISSING_EFFECT_HINT: &'static str =
    "effect ids hash (program hash, kind, site, control path, visit), so an edited program or a different branch/loop path diverges here";

/// The message of a replay error.
pub open spec fn replay_error_text(e: ReplayErrorV) -> Seq<char> {
    match e {
        ReplayErrorV::NoIdentity {
            kind,
            op_id,
        } => "AgentIR replay trace "@ + kind.text() + " call op "@ + text::decimal(op_id as nat)
            + " carries no effect identity; only IR-mode traces (whose call events have an `effect` field) are replayable"@,
        ReplayErrorV::WrongKind {
            expected,
            op_id,
            found,
        } => "AgentIR replay expected "@ + expected.text() + " effect metadata on op "@
            + text::decimal(op_id as nat) + ", got "@ + found.kind.text() + " at block "@
            + ir_flow::label_text(found.site.block.0) + " instruction "@
            + text::decimal(found.site.instruction_index as nat),
        ReplayErrorV::MissingCall {
            kind,
            location,
        } => "AgentIR replay missing "@ + kind.text() + "Call for effect "@ + location.effect_id
            + " at "@ + location_text(location) + "; "@
            + "effect ids hash (program hash, kind, site, control path, visit), so an edited program or a different branch/loop path diverges here"@,
        ReplayErrorV::InferDiverged {
            effect_id,
            recorded,
            model,
        } => "AgentIR replay diverged at effect "@ + effect_id + ": expected Infer model "@
            + text::quoted(recorded.model) + " at "@ + location_text(recorded.location)
            + ", observed "@ + text::quoted(model),
        ReplayErrorV::EvalDiverged {
            effect_id,
            recorded,
            command,
            argv,
        } => "AgentIR replay diverged at effect "@ + effect_id + ": expected Eval command "@
            + text::quoted(recorded.command) + " (argv "@ + shown_argv(recorded.argv) + ") at "@
            + location_text(recorded.location) + ", observed "@ + text::quoted(command) + " (argv "@
            + shown_argv(argv) + ")"@,
        ReplayErrorV::RetrieveDiverged {
            effect_id,
            recorded,
            observed,
        } => "AgentIR replay diverged at effect "@ + effect_id + ": expected Retrieve "@
            + shown_retrieve(recorded) + ", observed "@ + shown_retrieve(observed),
        ReplayErrorV::StoreDiverged {
            effect_id,
            recorded,
            observed,
        } => "AgentIR replay diverged at effect "@ + effect_id + ": expected Store "@
            + shown_store(recorded) + ", observed "@ + shown_store(observed),
        ReplayErrorV::ToolDiverged {
            effect_id,
            recorded,
            name,
            arguments,
        } => "AgentIR replay diverged at effect "@ + effect_id + ": expected tool "@
            + text::quoted(recorded.name) + " with arguments "@
            + json::json_text(recorded.arguments) + " at "@ + location_text(recorded.location)
            + ", observed "@ + text::quoted(name) + " with arguments "@
            + json::json_text(arguments),
        ReplayErrorV::Failed {
            kind,
            effect_id,
            error,
        } => "AgentIR replaying recorded "@ + kind.text() + " failure at effect "@ + effect_id
            + ": "@ + error,
        ReplayErrorV::MissingResult {
            kind,
            effect_id,
        } => "AgentIR replay missing "@ + kind.text() + "Result for effect "@ + effect_id,
        ReplayErrorV::NoApproval { effect_id } => "AgentIR replay diverged at effect "@ + effect_id
            + ": the effect is approval-gated but the recording has no approval outcome for it"@,
        ReplayErrorV::RequestDiverged {
            effect_id,
            recorded,
            observed,
        } => "AgentIR replay diverged at effect "@ + effect_id + ": recorded approval request "@
            + json::json_text(recorded) + " does not match observed request "@
            + json::json_text(observed),
    }
}

impl ReplayError {
    /// The message of the error.
    pub fn message(&self) -> (r: String)
        ensures
            r@ == replay_error_text(self@),
    {
        match self {
            ReplayError::NoIdentity { kind, op_id } => {
                let mut out = "AgentIR replay trace ".to_owned();
                out.append(kind.as_str());
                out.append(" call op ");
                out.append(decimal_of(*op_id as u128).as_str());
                out.append(" carries no effect identity; only IR-mode traces (whose call events have an `effect` field) are replayable");
                out
            },
            ReplayError::WrongKind { expected, op_id, found } => {
                let mut out = "AgentIR replay expected ".to_owned();
                out.append(expected.as_str());
                out.append(" effect metadata on op ");
                out.append(decimal_of(*op_id as u128).as_str());
                out.append(", got ");
                out.append(found.kind.as_str());
                out.append(" at block ");
                out.append(show_label(found.site.block).as_str());
                out.append(" instruction ");
                out.append(decimal_of(found.site.instruction_index as u128).as_str());
                out
            },
            ReplayError::MissingCall { kind, location } => {
                let mut out = "AgentIR replay missing ".to_owned();
                out.append(kind.as_str());
                out.append("Call for effect ");
                out.append(location.effect_id.as_str());
                out.append(" at ");
                out.append(location_desc(location).as_str());
                out.append("; ");
                out.append(MISSING_EFFECT_HINT);
                out
            },
            ReplayError::InferDiverged { effect_id, recorded, model } => {
                let mut out = "AgentIR replay diverged at effect ".to_owned();
                out.append(effect_id.as_str());
                out.append(": expected Infer model ");
                out.append(debug_quoted(recorded.model.as_str()).as_str());
                out.append(" at ");
                out.append(location_desc(&recorded.location).as_str());
                out.append(", observed ");
                out.append(debug_quoted(model.as_str()).as_str());
                out
            },
            ReplayError::EvalDiverged { effect_id, recorded, command, argv } => {
                let mut out = "AgentIR replay diverged at effect ".to_owned();
                out.append(effect_id.as_str());
                out.append(": expected Eval command ");
                out.append(debug_quoted(recorded.command.as_str()).as_str());
                out.append(" (argv ");
                out.append(show_argv(&recorded.argv).as_str());
                out.append(") at ");
                out.append(location_desc(&recorded.location).as_str());
                out.append(", observed ");
                out.append(debug_quoted(command.as_str()).as_str());
                out.append(" (argv ");
                out.append(show_argv(argv).as_str());
                out.append(")");
                out
            },
            ReplayError::RetrieveDiverged { effect_id, recorded, observed } => {
                let mut out = "AgentIR replay diverged at effect ".to_owned();
                out.append(effect_id.as_str());
                out.append(": expected Retrieve ");
                out.append(show_retrieve(recorded).as_str());
                out.append(", observed ");
                out.append(show_retrieve(observed).as_str());
                out
            },
            ReplayError::StoreDiverged { effect_id, recorded, observed } => {
                let mut out = "AgentIR replay diverged at effect ".to_owned();
                out.append(effect_id.as_str());
                out.append(": expected Store ");
                out.append(show_store(recorded).as_str());
                out.append(", observed ");
                out.append(show_store(observed).as_str());
                out
            },
            ReplayError::ToolDiverged { effect_id, recorded, name, arguments } => {
                let mut out = "AgentIR replay diverged at effect ".to_owned();
                out.append(effect_id.as_str());
                out.append(": expected tool ");
                out.append(debug_quoted(recorded.name.as_str()).as_str());
                out.append(" with arguments ");
                out.append(recorded.arguments.to_text().as_str());
                out.append(" at ");
                out.append(location_desc(&recorded.location).as_str());
                out.append(", observed ");
                out.append(debug_quoted(name.as_str()).as_str());
                out.append(" with arguments ");
                out.append(arguments.to_text().as_str());
                out
            },
            ReplayError::Failed { kind, effect_id, error } => {
                let mut out = "AgentIR replaying recorded ".to_owned();
                out.append(kind.as_str());
                out.append(" failure at effect ");
                out.append(effect_id.as_str());
                out.append(": ");
                out.append(error.as_str());
                out
            },
            ReplayError::MissingResult { kind, effect_id } => {
                let mut out = "AgentIR replay missing ".to_owned();
                out.append(kind.as_str());
                out.append("Result for effect ");
                out.append(effect_id.as_str());
                out
            },
            ReplayError::NoApproval { effect_id } => {
                let mut out = "AgentIR replay diverged at effect ".to_owned();
                out.append(effect_id.as_str());
                out.append(": the effect is approval-gated but the recording has no approval outcome for it");
                out
            },
            ReplayError::RequestDiverged { effect_id, recorded, observed } => {
                let mut out = "AgentIR replay diverged at effect ".to_owned();
                out.append(effect_id.as_str());
                out.append(": recorded approval request ");
                out.append(recorded.to_text().as_str());
                out.append(" does not match observed request ");
                out.append(observed.to_text().as_str());
                out
            },
        }
    }
}

/// Whether an event is the call of an effect, and of which operation.
pub open spec fn call_op(e: EventV) -> Option<u64> {
    match e {
        EventV::InferCall { op_id, .. } => Some(op_id),
        EventV::EvalCall { op_id, .. } => Some(op_id),
        EventV::RetrieveCall { op_id, .. } => Some(op_id),
        EventV::StoreCall { op_id, .. } => Some(op_id),
        EventV::ToolCall { op_id, .. } => Some(op_id),
        _ => None,
    }
}

/// Whether an event is the result or the error of an effect, and of which
/// operation.
pub open spec fn outcome_op(e: EventV) -> Option<u64> {
    match e {
        EventV::InferResult { op_id, .. } => Some(op_id),
        EventV::InferError { op_id, .. } => Some(op_id),
        EventV::EvalResult { op_id, .. } => Some(op_id),
        EventV::EvalError { op_id, .. } => Some(op_id),
        EventV::RetrieveResult { op_id, .. } => Some(op_id),
        EventV::RetrieveError { op_id, .. } => Some(op_id),
        EventV::StoreResult { op_id, .. } => Some(op_id),
        EventV::StoreError { op_id, .. } => Some(op_id),
        EventV::ToolResult { op_id, .. } => Some(op_id),
        EventV::ToolError { op_id, .. } => Some(op_id),
        _ => None,
    }
}

/// The index after two more events.
pub open spec fn record_both(x: IndexV, a: EventV, b: EventV) -> Result<IndexV, ReplayErrorV> {
    match record(x, a) {
        Ok(y) => record(y, b),
        Err(e) => Err(e),
    }
}

/// No adjacency is needed: an outcome may stand before or after the call of
/// another operation, and the index is the same.
pub proof fn outcomes_pass_other_calls(x: IndexV, call: EventV, outcome: EventV)
    requires
        call_op(call) is Some,
        outcome_op(outcome) is Some,
        call_op(call) != outcome_op(outcome),
    ensures
        record_both(x, call, outcome) == record_both(x, outcome, call),
{
}

/// Whether an outcome belongs to a known operation.
pub open spec fn is_known(x: IndexV, e: EventV) -> bool {
    outcome_op(e) is Some && x.ops.dom().contains(outcome_op(e)->0)
}

/// Whether an outcome says anything: an inference may have left no response.
pub open spec fn says_something(e: EventV) -> bool {
    e is InferResult ==> e->InferResult_response is Some
}

/// The index after one more outcome, table by table.
pub open spec fn noted(x: IndexV, e: EventV) -> IndexV {
    let known = is_known(x, e);
    let id = x.ops[outcome_op(e)->0];
    IndexV {
        trace: IrReplayTraceV {
            infer_results: if known && e is InferResult && e->InferResult_response is Some {
                x.trace.infer_results.insert(id, (e->InferResult_response)->0)
            } else {
                x.trace.infer_results
            },
            infer_errors: if known && e is InferError {
                x.trace.infer_errors.insert(id, e->InferError_error)
            } else {
                x.trace.infer_errors
            },
            eval_results: if known && e is EvalResult {
                x.trace.eval_results.insert(id, e->EvalResult_result)
            } else {
                x.trace.eval_results
            },
            eval_errors: if known && e is EvalError {
                x.trace.eval_errors.insert(id, e->EvalError_error)
            } else {
                x.trace.eval_errors
            },
            retrieve_results: if known && e is RetrieveResult {
                x.trace.retrieve_results.insert(id, e->RetrieveResult_results)
            } else {
                x.trace.retrieve_results
            },
            retrieve_errors: if known && e is RetrieveError {
                x.trace.retrieve_errors.insert(id, e->RetrieveError_error)
            } else {
                x.trace.retrieve_errors
            },
            store_results: if known && e is StoreResult {
                x.trace.store_results.insert(id, e->StoreResult_sink_id)
            } else {
                x.trace.store_results
            },
            store_errors: if known && e is StoreError {
                x.trace.store_errors.insert(id, e->StoreError_error)
            } else {
                x.trace.store_errors
            },
            tool_results: if known && e is ToolResult {
                x.trace.tool_results.insert(id, e->ToolResult_result)
            } else {
                x.trace.tool_results
            },
            tool_errors: if known && e is ToolError {
                x.trace.tool_errors.insert(id, e->ToolError_error)
            } else {
                x.trace.tool_errors
            },
            ..x.trace
        },
        ops: x.ops,
        early: if !known && says_something(e) {
            x.early.push(e)
        } else {
            x.early
        },
    }
}

/// An outcome is noted, or put aside.
pub proof fn outcomes_are_noted(x: IndexV, e: EventV)
    requires
        outcome_op(e) is Some,
    ensures
        record(x, e) == Ok::<IndexV, ReplayErrorV>(noted(x, e)),
{
}

/// Outcomes of operations that carried out different effects may stand in
/// either order, if the call of one of them is known.
pub proof fn outcomes_of_different_effects_commute(x: IndexV, a: EventV, b: EventV)
    requires
        outcome_op(a) is Some,
        outcome_op(b) is Some,
        is_known(x, a) || is_known(x, b),
        x.ops.dom().contains(outcome_op(a)->0) && x.ops.dom().contains(outcome_op(b)->0)
            ==> x.ops[outcome_op(a)->0] != x.ops[outcome_op(b)->0],
    ensures
        record_both(x, a, b) == record_both(x, b, a),
{
    outcomes_are_noted(x, a);
    outcomes_are_noted(x, b);
    outcomes_are_noted(noted(x, a), b);
    outcomes_are_noted(noted(x, b), a);
    let one = noted(noted(x, a), b);
    let two = noted(noted(x, b), a);
    assert(one.ops == x.ops && two.ops == x.ops);
    assert(one.early == two.early);
    assert(one.trace.infer_results =~= two.trace.infer_results);
    assert(one.trace.infer_errors =~= two.trace.infer_errors);
    assert(one.trace.eval_results =~= two.trace.eval_results);
    assert(one.trace.eval_errors =~= two.trace.eval_errors);
    assert(one.trace.retrieve_results =~= two.trace.retrieve_results);
    assert(one.trace.retrieve_errors =~= two.trace.retrieve_errors);
    assert(one.trace.store_results =~= two.trace.store_results);
    assert(one.trace.store_errors =~= two.trace.store_errors);
    assert(one.trace.tool_results =~= two.trace.tool_results);
    assert(one.trace.tool_errors =~= two.trace.tool_errors);
    assert(one == two);
}

/// Events that are neither calls nor outcomes of effects, nor part of an
/// approval, nor custom, may be left out of a recording.
pub proof fn other_events_are_passed_over(x: IndexV, e: EventV)
    requires
        call_op(e) is None,
        outcome_op(e) is None,
        !(e is ApprovalRequested),
        !(e is ApprovalResolved),
        !(e is Custom),
    ensures
        record(x, e) == Ok::<IndexV, ReplayErrorV>(x),
{
}

/// Replay gives back what was recorded: after a call and its result the
/// index answers the same call with that result, unless a failure of the
/// same effect is on record.
pub proof fn recorded_result_is_replayed(
    x: IndexV,
    location: EffectLocationV,
    call: EventV,
    outcome: EventV,
)
    requires
        call_op(call) is Some,
        outcome_op(outcome) == call_op(call),
        record_both(x, call, outcome) is Ok,
    ensures
        ({
            let t = record_both(x, call, outcome)->Ok_0.trace;
            let id = location.effect_id;
            match (call, outcome) {
                (
                    EventV::InferCall { model, effect, .. },
                    EventV::InferResult { response: Some(response), .. },
                ) => effect == Some(location) && !x.trace.infer_errors.dom().contains(id)
                    ==> infer_answer(t, location, model) == Ok::<ResponseV, ReplayErrorV>(response),
                (
                    EventV::EvalCall { command, argv, effect, .. },
                    EventV::EvalResult { result, .. },
                ) => effect == Some(location) && !x.trace.eval_errors.dom().contains(id)
                    ==> eval_answer(
                        t,
                        location,
                        command,
                        argv,
                    ) == Ok::<JsonV, ReplayErrorV>(result),
                (
                    EventV::RetrieveCall { query, kind, max_bytes, effect, .. },
                    EventV::RetrieveResult { results, .. },
                ) => effect == Some(location) && !x.trace.retrieve_errors.dom().contains(id)
                    ==> retrieve_answer(t, location, IrRetrieveCallV { query, kind, max_bytes })
                    == Ok::<JsonV, ReplayErrorV>(results),
                (
                    EventV::StoreCall { sink, store_op, store_id, content_hash, effect, .. },
                    EventV::StoreResult { sink_id, .. },
                ) => effect == Some(location) && !x.trace.store_errors.dom().contains(id)
                    ==> store_answer(
                    t,
                    location,
                    IrStoreCallV { sink, op: store_op, id: store_id, content_hash },
                ) == Ok::<Seq<char>, ReplayErrorV>(sink_id),
                (
                    EventV::ToolCall { name, arguments, effect, .. },
                    EventV::ToolResult { result, .. },
                ) => effect == Some(location) && !x.trace.tool_errors.dom().contains(id)
                    ==> tool_answer(t, location, name, arguments) == Ok::<JsonV, ReplayErrorV>(
                    result,
                ),
                _ => true,
            }
        }),
{
    match call {
        EventV::ToolCall { arguments, .. } => {
            json::same_reflexive(arguments);
        },
        _ => {},
    }
}

/// The index of events in two parts.
pub proof fn indexed_in_parts(x: IndexV, a: Seq<EventV>, b: Seq<EventV>)
    ensures
        indexed_from(x, a + b) == match indexed_from(x, a) {
            Ok(y) => indexed_from(y, b),
            Err(e) => Err(e),
        },
    decreases b.len(),
{
    if b.len() == 0 {
        assert(a + b =~= a);
    } else {
        assert((a + b).drop_last() =~= a + b.drop_last());
        indexed_in_parts(x, a, b.drop_last());
    }
}

/// The index of one event.
pub proof fn index_of_one(x: IndexV, a: EventV)
    ensures
        indexed_from(x, seq![a]) == record(x, a),
{
    assert(seq![a].drop_last() =~= Seq::empty());
    assert(indexed_from(x, seq![a].drop_last()) == Ok::<IndexV, ReplayErrorV>(x));
}

/// The index of two events.
pub proof fn index_of_two(x: IndexV, a: EventV, b: EventV)
    ensures
        indexed_from(x, seq![a, b]) == record_both(x, a, b),
{
    assert(seq![a, b].drop_last() =~= seq![a]);
    index_of_one(x, a);
}

/// The effect that a call carries.
pub open spec fn call_effect(e: EventV) -> Option<EffectLocationV> {
    match e {
        EventV::InferCall { effect, .. } => effect,
        EventV::EvalCall { effect, .. } => effect,
        EventV::RetrieveCall { effect, .. } => effect,
        EventV::StoreCall { effect, .. } => effect,
        EventV::ToolCall { effect, .. } => effect,
        _ => None,
    }
}

/// Whether an event is about another operation and another effect.
pub open spec fn is_foreign(e: EventV, op_id: u64, effect_id: Seq<char>) -> bool {
    &&& call_op(e) != Some(op_id)
    &&& outcome_op(e) != Some(op_id)
    &&& call_op(e) is Some ==> (call_effect(e) matches Some(l) ==> l.effect_id != effect_id)
}

/// Whether events are about other operations and other effects.
pub open spec fn are_foreign(events: Seq<EventV>, op_id: u64, effect_id: Seq<char>) -> bool {
    forall|i: int| 0 <= i < events.len() ==> is_foreign(#[trigger] events[i], op_id, effect_id)
}

/// Whether an index says nothing about an operation and its effect.
spec fn knows_nothing(x: IndexV, op_id: u64, effect_id: Seq<char>) -> bool {
    &&& !x.ops.dom().contains(op_id)
    &&& forall|o: u64| #[trigger] x.ops.dom().contains(o) ==> x.ops[o] != effect_id
    &&& are_foreign(x.early, op_id, effect_id)
}

proof fn foreign_events_tell_nothing(
    x: IndexV,
    events: Seq<EventV>,
    op_id: u64,
    effect_id: Seq<char>,
)
    requires
        knows_nothing(x, op_id, effect_id),
        are_foreign(events, op_id, effect_id),
    ensures
        indexed_from(x, events) matches Ok(y) ==> knows_nothing(y, op_id, effect_id),
    decreases events.len(),
{
    if events.len() > 0 {
        let before = events.drop_last();
        assert forall|i: int| 0 <= i < before.len() implies is_foreign(
            #[trigger] before[i],
            op_id,
            effect_id,
        ) by {
            assert(is_foreign(events[i], op_id, effect_id));
        }
        foreign_events_tell_nothing(x, before, op_id, effect_id);
        assert(is_foreign(events.last(), op_id, effect_id)) by {
            assert(is_foreign(events[events.len() - 1], op_id, effect_id));
        }
        match indexed_from(x, before) {
            Ok(y) => match record(y, events.last()) {
                Ok(z) => {
                    assert forall|i: int| 0 <= i < z.early.len() implies is_foreign(
                        #[trigger] z.early[i],
                        op_id,
                        effect_id,
                    ) by {
                        if i < y.early.len() {
                            assert(is_foreign(y.early[i], op_id, effect_id));
                        }
                    }
                },
                Err(_) => {},
            },
            Err(_) => {},
        }
    }
}

/// Whether two indexes differ in one outcome alone: the first has put it
/// aside, the second has noted it.
spec fn lags(
    x: IndexV,
    y: IndexV,
    outcome: EventV,
    op_id: u64,
    effect_id: Seq<char>,
    at: int,
) -> bool {
    &&& x.ops == y.ops
    &&& x.ops.dom().contains(op_id) && x.ops[op_id] == effect_id
    &&& forall|o: u64| #[trigger] x.ops.dom().contains(o) && o != op_id ==> x.ops[o] != effect_id
    &&& y.trace == noted(x, outcome).trace
    &&& 0 <= at < x.early.len()
    &&& x.early[at] == outcome
    &&& y.early == x.early.remove(at)
    &&& are_foreign(y.early, op_id, effect_id)
}

/// A foreign event is recorded by both alike.
proof fn foreign_events_keep_the_lag(
    x: IndexV,
    y: IndexV,
    outcome: EventV,
    op_id: u64,
    effect_id: Seq<char>,
    at: int,
    e: EventV,
)
    requires
        outcome_op(outcome) == Some(op_id),
        lags(x, y, outcome, op_id, effect_id, at),
        is_foreign(e, op_id, effect_id),
    ensures
        match (record(x, e), record(y, e)) {
            (Ok(p), Ok(q)) => lags(p, q, outcome, op_id, effect_id, at),
            (Err(p), Err(q)) => p == q,
            _ => false,
        },
{
    if outcome_op(e) is Some {
        outcomes_are_noted(x, e);
        outcomes_are_noted(y, e);
        let p = noted(x, e);
        let q = noted(y, e);
        let known = IndexV { early: Seq::empty(), ..x };
        outcomes_of_different_effects_commute(known, outcome, e);
        outcomes_are_noted(known, outcome);
        outcomes_are_noted(known, e);
        outcomes_are_noted(noted(known, outcome), e);
        outcomes_are_noted(noted(known, e), outcome);
        assert(noted(known, outcome).trace == y.trace);
        assert(noted(noted(known, outcome), e).trace == q.trace);
        assert(noted(known, e).trace == p.trace);
        assert(noted(noted(known, e), outcome).trace == noted(p, outcome).trace);
        assert(q.early =~= p.early.remove(at));
        assert(are_foreign(q.early, op_id, effect_id)) by {
            assert forall|i: int| 0 <= i < q.early.len() implies is_foreign(
                #[trigger] q.early[i],
                op_id,
                effect_id,
            ) by {
                if i < y.early.len() {
                    assert(is_foreign(y.early[i], op_id, effect_id));
                }
            }
        }
    }
}

proof fn foreign_lists_keep_the_lag(
    x: IndexV,
    y: IndexV,
    outcome: EventV,
    op_id: u64,
    effect_id: Seq<char>,
    at: int,
    events: Seq<EventV>,
)
    requires
        outcome_op(outcome) == Some(op_id),
        lags(x, y, outcome, op_id, effect_id, at),
        are_foreign(events, op_id, effect_id),
    ensures
        match (indexed_from(x, events), indexed_from(y, events)) {
            (Ok(p), Ok(q)) => lags(p, q, outcome, op_id, effect_id, at),
            (Err(p), Err(q)) => p == q,
            _ => false,
        },
    decreases events.len(),
{
    if events.len() > 0 {
        let before = events.drop_last();
        assert forall|i: int| 0 <= i < before.len() implies is_foreign(
            #[trigger] before[i],
            op_id,
            effect_id,
        ) by {
            assert(is_foreign(events[i], op_id, effect_id));
        }
        foreign_lists_keep_the_lag(x, y, outcome, op_id, effect_id, at, before);
        match (indexed_from(x, before), indexed_from(y, before)) {
            (Ok(p), Ok(q)) => {
                assert(is_foreign(events[events.len() - 1], op_id, effect_id));
                foreign_events_keep_the_lag(p, q, outcome, op_id, effect_id, at, events.last());
            },
            _ => {},
        }
    }
}

/// An index that lags behind in one outcome catches up.
proof fn lags_are_caught_up(
    x: IndexV,
    y: IndexV,
    outcome: EventV,
    op_id: u64,
    effect_id: Seq<char>,
    at: int,
)
    requires
        outcome_op(outcome) == Some(op_id),
        lags(x, y, outcome, op_id, effect_id, at),
    ensures
        caught_up(x) == caught_up(y),
{
    let before = x.early.take(at);
    let after = x.early.skip(at + 1);
    assert(x.early =~= (before + seq![outcome]) + after);
    assert(y.early =~= before + after);
    // A lag of its own for the first part: the outcome alone is put aside.
    let p = IndexV { early: seq![outcome], ..x };
    let q = IndexV { early: Seq::empty(), ..y };
    assert(q.early =~= p.early.remove(0));
    assert(p.early[0] == outcome);
    assert(noted(p, outcome).trace == y.trace);
    assert(lags(p, q, outcome, op_id, effect_id, 0));
    assert(are_foreign(before, op_id, effect_id)) by {
        assert forall|i: int| 0 <= i < before.len() implies is_foreign(
            #[trigger] before[i],
            op_id,
            effect_id,
        ) by {
            assert(y.early[i] == before[i]);
        }
    }
    foreign_lists_keep_the_lag(p, q, outcome, op_id, effect_id, 0, before);
    let x0 = IndexV { early: Seq::empty(), ..x };
    early_is_kept(x0, p.early, before);
    indexed_in_parts(x0, before + seq![outcome], after);
    indexed_in_parts(x0, before, seq![outcome]);
    indexed_in_parts(q, before, after);
    match (indexed_from(p, before), indexed_from(q, before)) {
        (Ok(a), Ok(b)) => {
            let c = indexed_from(x0, before)->Ok_0;
            index_of_one(c, outcome);
            outcomes_are_noted(c, outcome);
            assert(a.early =~= seq![outcome] + c.early);
            assert(b.early =~= c.early);
            assert(noted(c, outcome) == b);
        },
        _ => {},
    }
}

/// What an index has put aside does not change how further events are taken.
pub proof fn early_is_kept(x: IndexV, early: Seq<EventV>, events: Seq<EventV>)
    requires
        x.early.len() == 0,
    ensures
        match (indexed_from(x, events), indexed_from(IndexV { early, ..x }, events)) {
            (Ok(p), Ok(q)) => q == (IndexV { early: early + p.early, ..p }),
            (Err(p), Err(q)) => p == q,
            _ => false,
        },
    decreases events.len(),
{
    if events.len() == 0 {
        assert(early + x.early =~= early);
    } else {
        early_is_kept(x, early, events.drop_last());
        match (
            indexed_from(x, events.drop_last()),
            indexed_from(IndexV { early, ..x }, events.drop_last()),
        ) {
            (Ok(p), Ok(q)) => {
                assert((early + p.early).push(events.last()) =~= early + p.early.push(
                    events.last(),
                ));
            },
            _ => {},
        }
    }
}

/// An outcome that comes before its call is put aside.
proof fn early_outcomes_lag(
    x: IndexV,
    call: EventV,
    outcome: EventV,
    op_id: u64,
    effect_id: Seq<char>,
)
    requires
        call_op(call) == Some(op_id),
        outcome_op(outcome) == Some(op_id),
        call_effect(call) matches Some(l) && l.effect_id == effect_id,
        knows_nothing(x, op_id, effect_id),
    ensures
        match (record_both(x, outcome, call), record_both(x, call, outcome)) {
            (Ok(p), Ok(q)) => p == q || lags(
                p,
                q,
                outcome,
                op_id,
                effect_id,
                x.early.len() as int,
            ),
            (Err(p), Err(q)) => p == q,
            _ => false,
        },
{
    let y = noted(x, outcome);
    outcomes_are_noted(x, outcome);
    match record(x, call) {
        Ok(a) => {
            outcomes_are_noted(a, outcome);
            if says_something(outcome) {
                let at = x.early.len() as int;
                let p = record(y, call)->Ok_0;
                let q = noted(a, outcome);
                assert(p.early == x.early.push(outcome));
                assert(p.early.remove(at) =~= x.early);
                assert(p.trace == a.trace && p.ops == a.ops);
                assert(noted(p, outcome).trace == q.trace);
            }
        },
        Err(_) => {},
    }
}

/// A result or an error may come before its call: wherever the two stand among
/// events about other operations and effects, the recording is indexed as if
/// the outcome had followed the call.
pub proof fn outcomes_may_come_first(
    before: Seq<EventV>,
    call: EventV,
    outcome: EventV,
    after: Seq<EventV>,
)
    requires
        call_op(call) is Some,
        outcome_op(outcome) == call_op(call),
        call_effect(call) matches Some(l) ==> are_foreign(before, call_op(call)->0, l.effect_id)
            && are_foreign(after, call_op(call)->0, l.effect_id),
    ensures
        indexed(before + seq![outcome, call] + after) == indexed(
            before + seq![call, outcome] + after,
        ),
{
    indexed_in_parts(blank(), before + seq![outcome, call], after);
    indexed_in_parts(blank(), before + seq![call, outcome], after);
    indexed_in_parts(blank(), before, seq![outcome, call]);
    indexed_in_parts(blank(), before, seq![call, outcome]);
    match indexed_from(blank(), before) {
        Err(_) => {},
        Ok(x) => {
            index_of_two(x, outcome, call);
            index_of_two(x, call, outcome);
            match call_effect(call) {
                None => {},
                Some(l) => {
                    let op_id = call_op(call)->0;
                    let id = l.effect_id;
                    foreign_events_tell_nothing(blank(), before, op_id, id);
                    early_outcomes_lag(x, call, outcome, op_id, id);
                    match (record_both(x, outcome, call), record_both(x, call, outcome)) {
                        (Ok(p), Ok(q)) => {
                            if p != q {
                                let at = x.early.len() as int;
                                foreign_lists_keep_the_lag(p, q, outcome, op_id, id, at, after);
                                match (indexed_from(p, after), indexed_from(q, after)) {
                                    (Ok(a), Ok(b)) => {
                                        lags_are_caught_up(a, b, outcome, op_id, id, at);
                                    },
                                    _ => {},
                                }
                            }
                        },
                        _ => {},
                    }
                },
            }
        },
    }
}

} // verus!
