//! The public view of the events of a run: dotted lifecycle names and a
//! stable shape, or nothing for what is internal.
use crate::approval;
use crate::codec;
use crate::codec::{add_field, encode_pricing};
use crate::effect::{EffectLocation, EffectLocationV};
use crate::ir_hash;
use crate::ir_hash::encode_texts;
use crate::json;
use crate::json::{copy_fields, Fields, Json, JsonV};
use crate::op;
use crate::op::copy_opt;
use crate::output_contract::OUTPUT_VALIDATION_FAILED_EVENT;
use crate::text;
use crate::text::{preview, same_text};
use crate::trace::{Event, EventV, Pricing, RunUsage};
use vstd::prelude::*;

verus! {

/// The version of the public schema.
pub const PUBLIC_SCHEMA_VERSION: u32 = 1;

/// How much of a payload is shown.
pub const PAYLOAD_PREVIEW_MAX_CHARS: usize = 1024;

/// The phase of a public event.  An evaluation that ran to its end is
/// completed, whatever its exit code.
#[derive(Debug, Clone, Copy, PartialEq, Eq, Structural)]
pub enum PublicStatus {
    Started,
    Completed,
    Failed,
}

#[derive(Debug, Clone, Copy, PartialEq, Eq, Structural)]
pub struct PublicEffectSite {
    pub block: u32,
    pub instruction_index: usize,
}

/// Which way control flow came to an effect.
#[derive(Debug)]
pub struct PublicDynamicPath {
    pub path: String,
    pub transitions: u64,
    pub visit: u64,
}

/// The model of a public path.
pub struct PublicDynamicPathV {
    pub path: Seq<char>,
    pub transitions: u64,
    pub visit: u64,
}

impl PublicDynamicPath {
    pub open spec fn view(&self) -> PublicDynamicPathV {
        PublicDynamicPathV {
            path: self.path@,
            transitions: self.transitions,
            visit: self.visit,
        }
    }
}

impl Clone for PublicDynamicPath {
    fn clone(&self) -> (r: Self)
        ensures
            r@ == self@,
    {
        PublicDynamicPath {
            path: self.path.clone(),
            transitions: self.transitions,
            visit: self.visit,
        }
    }
}

/// The public identity of an effect.
#[derive(Debug)]
pub struct PublicEffect {
    pub effect_id: String,
    pub program_hash: String,
    pub site: PublicEffectSite,
    pub dynamic_path: PublicDynamicPath,
}

/// The model of a public effect.
pub struct PublicEffectV {
    pub effect_id: Seq<char>,
    pub program_hash: Seq<char>,
    pub site: PublicEffectSite,
    pub dynamic_path: PublicDynamicPathV,
}

impl PublicEffect {
    pub open spec fn view(&self) -> PublicEffectV {
        PublicEffectV {
            effect_id: self.effect_id@,
            program_hash: self.program_hash@,
            site: self.site,
            dynamic_path: self.dynamic_path@,
        }
    }
}

impl Clone for PublicEffect {
    fn clone(&self) -> (r: Self)
        ensures
            r@ == self@,
    {
        PublicEffect {
            effect_id: self.effect_id.clone(),
            program_hash: self.program_hash.clone(),
            site: self.site,
            dynamic_path: self.dynamic_path.clone(),
        }
    }
}

/// The model of an optional value.
pub open spec fn opt_public_effect(x: Option<PublicEffect>) -> Option<PublicEffectV> {
    match x {
        Some(v) => Some(v@),
        None => None,
    }
}

fn copy_public_effect(x: &Option<PublicEffect>) -> (r: Option<PublicEffect>)
    ensures
        opt_public_effect(r) == opt_public_effect(*x),
{
    match x {
        Some(v) => Some(v.clone()),
        None => None,
    }
}

/// One public event, its attributes ordered by name.
#[derive(Debug)]
pub struct PublicEvent {
    pub schema_version: u32,
    pub event: String,
    pub ts: i128,
    pub run_id: String,
    /// The same as the run for now.
    pub session_id: String,
    /// Reserved.
    pub turn_id: Option<String>,
    /// Pairs the start of an operation with its end.
    pub op_id: Option<u64>,
    pub parent_op_id: Option<u64>,
    pub status: PublicStatus,
    pub effect: Option<PublicEffect>,
    /// Reserved.
    pub parent_effect_id: Option<String>,
    /// Present exactly when the status is failed.
    pub error: Option<String>,
    /// An excerpt for readers.
    pub payload_preview: Option<String>,
    /// Reserved.
    pub payload_ref: Option<String>,
    pub attrs: Vec<(String, Json)>,
}

/// The model of a public event.
pub struct PublicEventV {
    pub schema_version: u32,
    pub event: Seq<char>,
    pub ts: i128,
    pub run_id: Seq<char>,
    pub session_id: Seq<char>,
    pub turn_id: Option<Seq<char>>,
    pub op_id: Option<u64>,
    pub parent_op_id: Option<u64>,
    pub status: PublicStatus,
    pub effect: Option<PublicEffectV>,
    pub parent_effect_id: Option<Seq<char>>,
    pub error: Option<Seq<char>>,
    pub payload_preview: Option<Seq<char>>,
    pub payload_ref: Option<Seq<char>>,
    pub attrs: Fields,
}

impl PublicEvent {
    pub open spec fn view(&self) -> PublicEventV {
        PublicEventV {
            schema_version: self.schema_version,
            event: self.event@,
            ts: self.ts,
            run_id: self.run_id@,
            session_id: self.session_id@,
            turn_id: op::opt_text(self.turn_id),
            op_id: self.op_id,
            parent_op_id: self.parent_op_id,
            status: self.status,
            effect: opt_public_effect(self.effect),
            parent_effect_id: op::opt_text(self.parent_effect_id),
            error: op::opt_text(self.error),
            payload_preview: op::opt_text(self.payload_preview),
            payload_ref: op::opt_text(self.payload_ref),
            attrs: json::fields(self.attrs@),
        }
    }
}

impl Clone for PublicEvent {
    fn clone(&self) -> (r: Self)
        ensures
            r@ == self@,
    {
        PublicEvent {
            schema_version: self.schema_version,
            event: self.event.clone(),
            ts: self.ts,
            run_id: self.run_id.clone(),
            session_id: self.session_id.clone(),
            turn_id: copy_opt(&self.turn_id),
            op_id: self.op_id,
            parent_op_id: self.parent_op_id,
            status: self.status,
            effect: copy_public_effect(&self.effect),
            parent_effect_id: copy_opt(&self.parent_effect_id),
            error: copy_opt(&self.error),
            payload_preview: copy_opt(&self.payload_preview),
            payload_ref: copy_opt(&self.payload_ref),
            attrs: copy_fields(&self.attrs),
        }
    }
}

/// The public identity of an effect.
pub open spec fn public_effect(l: EffectLocationV) -> PublicEffectV {
    PublicEffectV {
        effect_id: l.effect_id,
        program_hash: l.program_hash,
        site: PublicEffectSite {
            block: l.site.block.0,
            instruction_index: l.site.instruction_index,
        },
        dynamic_path: PublicDynamicPathV {
            path: l.dynamic_path.path,
            transitions: l.dynamic_path.transitions,
            visit: l.dynamic_path.visit,
        },
    }
}

impl PublicEffect {
    /// The public identity of an effect.
    pub fn of(l: &EffectLocation) -> (r: PublicEffect)
        ensures
            r@ == public_effect(l@),
    {
        PublicEffect {
            effect_id: l.effect_id.clone(),
            program_hash: l.program_hash.clone(),
            site: PublicEffectSite {
                block: l.site.block.0,
                instruction_index: l.site.instruction_index,
            },
            dynamic_path: PublicDynamicPath {
                path: l.dynamic_path.path.clone(),
                transitions: l.dynamic_path.transitions,
                visit: l.dynamic_path.visit,
            },
        }
    }
}

/// The public identity of an effect, if there is one.
pub open spec fn opt_public(l: Option<EffectLocationV>) -> Option<PublicEffectV> {
    match l {
        Some(x) => Some(public_effect(x)),
        None => None,
    }
}

fn publish_effect(l: &Option<EffectLocation>) -> (r: Option<PublicEffect>)
    ensures
        opt_public_effect(r) == opt_public(crate::trace::opt_effect_location(*l)),
{
    match l {
        Some(x) => Some(PublicEffect::of(x)),
        None => None,
    }
}

/// A text, unless it is empty.
pub open spec fn non_empty(s: Seq<char>) -> Option<Seq<char>> {
    if s.len() == 0 {
        None
    } else {
        Some(s)
    }
}

fn non_empty_preview(s: &str) -> (r: Option<String>)
    ensures
        op::opt_text(r) == non_empty(s@),
{
    if s.is_empty() {
        None
    } else {
        Some(s.to_owned())
    }
}

/// The excerpt of a value.
pub open spec fn excerpt(v: JsonV) -> Option<Seq<char>> {
    Some(text::prefix(json::json_text(v), PAYLOAD_PREVIEW_MAX_CHARS as nat))
}

/// The excerpt of the output of an evaluation.
pub open spec fn stdout_excerpt(result: JsonV) -> Option<Seq<char>> {
    match result.text_field("stdout"@) {
        Some(s) => if s.len() == 0 {
            None
        } else {
            Some(text::prefix(s, PAYLOAD_PREVIEW_MAX_CHARS as nat))
        },
        None => None,
    }
}

/// What a failed validation reports first.
pub open spec fn first_error(data: JsonV) -> Seq<char> {
    match data.field("errors"@) {
        Some(list) => match list.item(0) {
            Some(e) => match e.as_text() {
                Some(s) => s,
                None => "output failed schema validation"@,
            },
            None => "output failed schema validation"@,
        },
        None => "output failed schema validation"@,
    }
}

/// The excerpt that a failed validation carries.
pub open spec fn validation_excerpt(data: JsonV) -> Option<Seq<char>> {
    match data.text_field("preview"@) {
        Some(s) => non_empty(s),
        None => None,
    }
}

/// A list of attributes with one more.
pub open spec fn plus(f: Fields, key: Seq<char>, v: JsonV) -> Fields {
    f.push((key, v))
}

/// A list of attributes with one more, if it is given.
pub open spec fn plus_given(f: Fields, key: Seq<char>, v: Option<JsonV>) -> Fields {
    match v {
        Some(x) => f.push((key, x)),
        None => f,
    }
}

fn add_given(list: &mut Vec<(String, Json)>, key: &str, v: Option<Json>)
    ensures
        json::fields(final(list)@) == plus_given(
            json::fields(old(list)@),
            key@,
            match v {
                Some(x) => Some(x@),
                None => None,
            },
        ),
{
    match v {
        Some(x) => {
            add_field(list, key, x);
        },
        None => {},
    }
}

pub open spec fn given_text(s: Option<Seq<char>>) -> Option<JsonV> {
    match s {
        Some(x) => Some(JsonV::Str(x)),
        None => None,
    }
}

fn give_text(s: &Option<String>) -> (r: Option<Json>)
    ensures
        match r {
            Some(x) => given_text(op::opt_text(*s)) == Some(x@),
            None => given_text(op::opt_text(*s)) is None,
        },
{
    match s {
        Some(x) => Some(Json::Str(x.clone())),
        None => None,
    }
}

pub open spec fn given_int(n: Option<u64>) -> Option<JsonV> {
    match n {
        Some(x) => Some(JsonV::Int(x as int)),
        None => None,
    }
}

fn give_int(n: Option<u64>) -> (r: Option<Json>)
    ensures
        match r {
            Some(x) => given_int(n) == Some(x@),
            None => given_int(n) is None,
        },
{
    match n {
        Some(x) => Some(Json::Int(x as i128)),
        None => None,
    }
}

/// A smaller integer in the range of the wire.
pub open spec fn widened(n: Option<u32>) -> Option<u64> {
    match n {
        Some(x) => Some(x as u64),
        None => None,
    }
}

fn widen(n: Option<u32>) -> (r: Option<u64>)
    ensures
        r == widened(n),
{
    match n {
        Some(x) => Some(x as u64),
        None => None,
    }
}

pub open spec fn given_size(n: Option<usize>) -> Option<JsonV> {
    match n {
        Some(x) => Some(JsonV::Int(x as int)),
        None => None,
    }
}

fn give_size(n: Option<usize>) -> (r: Option<Json>)
    ensures
        match r {
            Some(x) => given_size(n) == Some(x@),
            None => given_size(n) is None,
        },
{
    match n {
        Some(x) => Some(Json::Int(x as i128)),
        None => None,
    }
}

pub open spec fn given_texts(l: Option<Seq<Seq<char>>>) -> Option<JsonV> {
    match l {
        Some(x) => Some(ir_hash::texts_json(x)),
        None => None,
    }
}

fn give_texts(l: &Option<Vec<String>>) -> (r: Option<Json>)
    ensures
        match r {
            Some(x) => given_texts(crate::ir::opt_texts(*l)) == Some(x@),
            None => given_texts(crate::ir::opt_texts(*l)) is None,
        },
{
    match l {
        Some(x) => Some(encode_texts(x)),
        None => None,
    }
}

/// The JSON form of a price, if it is known.
pub open spec fn given_pricing(p: Option<Pricing>) -> Option<JsonV> {
    match p {
        Some(x) => Some(codec::pricing_json(x)),
        None => None,
    }
}

fn give_pricing(p: Option<Pricing>) -> (r: Option<Json>)
    ensures
        match r {
            Some(x) => given_pricing(p) == Some(x@),
            None => given_pricing(p) is None,
        },
{
    match p {
        Some(x) => Some(encode_pricing(x)),
        None => None,
    }
}

/// A field of a value, where it is a boolean.
pub open spec fn given_bool(v: JsonV, key: Seq<char>) -> Option<JsonV> {
    match v.field(key) {
        Some(x) => match x.as_bool() {
            Some(b) => Some(JsonV::Bool(b)),
            None => None,
        },
        None => None,
    }
}

fn give_bool(v: &Json, key: &str) -> (r: Option<Json>)
    ensures
        match r {
            Some(x) => given_bool(v@, key@) == Some(x@),
            None => given_bool(v@, key@) is None,
        },
{
    match v.get(key) {
        Some(x) => match x.as_bool() {
            Some(b) => Some(Json::Bool(b)),
            None => None,
        },
        None => None,
    }
}

/// A field of a value, where it is an integer in the range of `i64`.
pub open spec fn given_i64(v: JsonV, key: Seq<char>) -> Option<JsonV> {
    match v.field(key) {
        Some(x) => match x.as_i64() {
            Some(n) => Some(JsonV::Int(n)),
            None => None,
        },
        None => None,
    }
}

fn give_i64(v: &Json, key: &str) -> (r: Option<Json>)
    ensures
        match r {
            Some(x) => given_i64(v@, key@) == Some(x@),
            None => given_i64(v@, key@) is None,
        },
{
    match v.get(key) {
        Some(x) => match x.as_i64() {
            Some(n) => Some(Json::Int(n as i128)),
            None => None,
        },
        None => None,
    }
}

fn give_field(v: &Json, key: &str) -> (r: Option<Json>)
    ensures
        match r {
            Some(x) => v@.field(key@) == Some(x@),
            None => v@.field(key@) is None,
        },
{
    match v.get(key) {
        Some(x) => Some(x.clone()),
        None => None,
    }
}

/// The number of failed inferences, unless there was none.
pub open spec fn failures(n: u64) -> Option<u64> {
    if n > 0 {
        Some(n)
    } else {
        None
    }
}

/// The attributes of a run that used so much.
pub open spec fn usage_attrs(u: RunUsage) -> Fields {
    plus(plus(plus(plus(plus(plus_given(plus_given(plus_given(Seq::empty(),
        "cached_input_tokens"@, given_int(u.cached_input_tokens)),
        "cost_micro_usd"@, given_int(u.cost_micro_usd)),
        "failed_infer_calls"@, given_int(failures(u.failed_infer_calls))),
        "infer_calls"@, JsonV::Int(u.infer_calls as int)),
        "input_tokens"@, JsonV::Int(u.input_tokens as int)),
        "output_tokens"@, JsonV::Int(u.output_tokens as int)),
        "total_tokens"@, JsonV::Int(u.total_tokens as int)),
        "uncosted_infer_calls"@, JsonV::Int(u.uncosted_infer_calls as int))
}

fn no_attrs() -> (r: Vec<(String, Json)>)
    ensures
        json::fields(r@) == Seq::<(Seq<char>, JsonV)>::empty(),
{
    let list: Vec<(String, Json)> = Vec::new();
    assert(json::fields(list@) =~= Seq::empty());
    list
}

fn encode_usage(u: RunUsage) -> (r: Vec<(String, Json)>)
    ensures
        json::fields(r@) == usage_attrs(u),
{
    let mut attrs = no_attrs();
    let failed = if u.failed_infer_calls > 0 {
        Some(u.failed_infer_calls)
    } else {
        None
    };
    add_given(&mut attrs, "cached_input_tokens", give_int(u.cached_input_tokens));
    add_given(&mut attrs, "cost_micro_usd", give_int(u.cost_micro_usd));
    add_given(&mut attrs, "failed_infer_calls", give_int(failed));
    add_field(&mut attrs, "infer_calls", Json::Int(u.infer_calls as i128));
    add_field(&mut attrs, "input_tokens", Json::Int(u.input_tokens as i128));
    add_field(&mut attrs, "output_tokens", Json::Int(u.output_tokens as i128));
    add_field(&mut attrs, "total_tokens", Json::Int(u.total_tokens as i128));
    add_field(&mut attrs, "uncosted_infer_calls", Json::Int(u.uncosted_infer_calls as i128));
    attrs
}

/// An event with nothing but its name, its place in the run and its status.
pub open spec fn bare(
    event: Seq<char>,
    ts: i128,
    run_id: Seq<char>,
    op_id: Option<u64>,
    parent_op_id: Option<u64>,
    status: PublicStatus,
) -> PublicEventV {
    PublicEventV {
        schema_version: PUBLIC_SCHEMA_VERSION,
        event,
        ts,
        run_id,
        session_id: run_id,
        turn_id: None,
        op_id,
        parent_op_id,
        status,
        effect: None,
        parent_effect_id: None,
        error: None,
        payload_preview: None,
        payload_ref: None,
        attrs: Seq::empty(),
    }
}

fn base(
    event: &str,
    ts: i128,
    run_id: &str,
    op_id: Option<u64>,
    parent_op_id: Option<u64>,
    status: PublicStatus,
) -> (r: PublicEvent)
    ensures
        r@ == bare(event@, ts, run_id@, op_id, parent_op_id, status),
{
    PublicEvent {
        schema_version: PUBLIC_SCHEMA_VERSION,
        event: event.to_owned(),
        ts,
        run_id: run_id.to_owned(),
        session_id: run_id.to_owned(),
        turn_id: None,
        op_id,
        parent_op_id,
        status,
        effect: None,
        parent_effect_id: None,
        error: None,
        payload_preview: None,
        payload_ref: None,
        attrs: no_attrs(),
    }
}

/// The public view of an event, or nothing for an internal one.
pub open spec fn published(e: EventV) -> Option<PublicEventV> {
    match e {
        EventV::InferCall {
            run_id,
            op_id,
            parent_op_id,
            model,
            prompt_preview,
            effect,
            timestamp,
            ..
        } => Some(
            PublicEventV {
                effect: opt_public(effect),
                payload_preview: non_empty(prompt_preview),
                attrs: plus(Seq::empty(), "model"@, JsonV::Str(model)),
                ..bare(
                    "infer.started"@,
                    timestamp,
                    run_id,
                    Some(op_id),
                    parent_op_id,
                    PublicStatus::Started,
                )
            },
        ),
        EventV::InferResult {
            run_id,
            op_id,
            parent_op_id,
            response_preview,
            input_tokens,
            output_tokens,
            total_tokens,
            cached_input_tokens,
            cost_micro_usd,
            pricing,
            duration_ms,
            timestamp,
            ..
        } => Some(
            PublicEventV {
                payload_preview: non_empty(response_preview),
                attrs: plus(
                    plus_given(
                        plus(
                            plus(
                                plus(
                                    plus_given(
                                        plus_given(
                                            Seq::empty(),
                                            "cached_input_tokens"@,
                                            given_int(widened(cached_input_tokens)),
                                        ),
                                        "cost_micro_usd"@,
                                        given_int(cost_micro_usd),
                                    ),
                                    "duration_ms"@,
                                    JsonV::Int(duration_ms as int),
                                ),
                                "input_tokens"@,
                                JsonV::Int(input_tokens as int),
                            ),
                            "output_tokens"@,
                            JsonV::Int(output_tokens as int),
                        ),
                        "pricing"@,
                        given_pricing(pricing),
                    ),
                    "total_tokens"@,
                    JsonV::Int(total_tokens as int),
                ),
                ..bare(
                    "infer.completed"@,
                    timestamp,
                    run_id,
                    Some(op_id),
                    parent_op_id,
                    PublicStatus::Completed,
                )
            },
        ),
        EventV::InferError { run_id, op_id, parent_op_id, error, duration_ms, timestamp } => Some(
            PublicEventV {
                error: Some(error),
                attrs: plus(Seq::empty(), "duration_ms"@, JsonV::Int(duration_ms as int)),
                ..bare(
                    "infer.failed"@,
                    timestamp,
                    run_id,
                    Some(op_id),
                    parent_op_id,
                    PublicStatus::Failed,
                )
            },
        ),
        EventV::EvalCall {
            run_id,
            op_id,
            parent_op_id,
            command,
            argv,
            cwd,
            env_policy,
            timeout_ms,
            effect,
            timestamp,
        } => Some(
            PublicEventV {
                effect: opt_public(effect),
                payload_preview: non_empty(command),
                attrs: plus(
                    plus(
                        plus_given(
                            plus_given(Seq::empty(), "argv"@, given_texts(argv)),
                            "cwd"@,
                            given_text(cwd),
                        ),
                        "env_policy"@,
                        JsonV::Str(env_policy),
                    ),
                    "timeout_ms"@,
                    JsonV::Int(timeout_ms as int),
                ),
                ..bare(
                    "eval.started"@,
                    timestamp,
                    run_id,
                    Some(op_id),
                    parent_op_id,
                    PublicStatus::Started,
                )
            },
        ),
        EventV::EvalResult {
            run_id,
            op_id,
            parent_op_id,
            command,
            result,
            duration_ms,
            truncated_stdout,
            truncated_stderr,
            timestamp,
        } => Some(
            PublicEventV {
                payload_preview: stdout_excerpt(result),
                attrs: plus(
                    plus(
                        plus_given(
                            plus_given(
                                plus_given(
                                    plus(
                                        plus(Seq::empty(), "command"@, JsonV::Str(command)),
                                        "duration_ms"@,
                                        JsonV::Int(duration_ms as int),
                                    ),
                                    "exit_code"@,
                                    given_i64(result, "status"@),
                                ),
                                "ok"@,
                                given_bool(result, "ok"@),
                            ),
                            "timed_out"@,
                            given_bool(result, "timed_out"@),
                        ),
                        "truncated_stderr"@,
                        JsonV::Bool(truncated_stderr),
                    ),
                    "truncated_stdout"@,
                    JsonV::Bool(truncated_stdout),
                ),
                ..bare(
                    "eval.completed"@,
                    timestamp,
                    run_id,
                    Some(op_id),
                    parent_op_id,
                    PublicStatus::Completed,
                )
            },
        ),
        EventV::EvalError {
            run_id,
            op_id,
            parent_op_id,
            command,
            error,
            duration_ms,
            timestamp,
        } => Some(
            PublicEventV {
                error: Some(error),
                attrs: plus(
                    plus(Seq::empty(), "command"@, JsonV::Str(command)),
                    "duration_ms"@,
                    JsonV::Int(duration_ms as int),
                ),
                ..bare(
                    "eval.failed"@,
                    timestamp,
                    run_id,
                    Some(op_id),
                    parent_op_id,
                    PublicStatus::Failed,
                )
            },
        ),
        EventV::RetrieveCall {
            run_id,
            op_id,
            parent_op_id,
            query,
            kind,
            max_bytes,
            effect,
            timestamp,
        } => Some(
            PublicEventV {
                effect: opt_public(effect),
                payload_preview: non_empty(query),
                attrs: plus_given(
                    plus_given(Seq::empty(), "kind"@, given_text(kind)),
                    "max_bytes"@,
                    given_size(max_bytes),
                ),
                ..bare(
                    "retrieve.started"@,
                    timestamp,
                    run_id,
                    Some(op_id),
                    parent_op_id,
                    PublicStatus::Started,
                )
            },
        ),
        EventV::RetrieveResult {
            run_id,
            op_id,
            parent_op_id,
            result_preview,
            source_count,
            bytes,
            duration_ms,
            timestamp,
            ..
        } => Some(
            PublicEventV {
                payload_preview: non_empty(result_preview),
                attrs: plus(
                    plus(
                        plus(Seq::empty(), "bytes"@, JsonV::Int(bytes as int)),
                        "duration_ms"@,
                        JsonV::Int(duration_ms as int),
                    ),
                    "source_count"@,
                    JsonV::Int(source_count as int),
                ),
                ..bare(
                    "retrieve.completed"@,
                    timestamp,
                    run_id,
                    Some(op_id),
                    parent_op_id,
                    PublicStatus::Completed,
                )
            },
        ),
        EventV::RetrieveError {
            run_id,
            op_id,
            parent_op_id,
            error,
            duration_ms,
            timestamp,
        } => Some(
            PublicEventV {
                error: Some(error),
                attrs: plus(Seq::empty(), "duration_ms"@, JsonV::Int(duration_ms as int)),
                ..bare(
                    "retrieve.failed"@,
                    timestamp,
                    run_id,
                    Some(op_id),
                    parent_op_id,
                    PublicStatus::Failed,
                )
            },
        ),
        EventV::StoreCall {
            run_id,
            op_id,
            parent_op_id,
            sink,
            store_op,
            store_id,
            item_preview,
            content_hash,
            effect,
            timestamp,
        } => Some(
            PublicEventV {
                effect: opt_public(effect),
                payload_preview: non_empty(item_preview),
                attrs: plus(
                    plus_given(
                        plus(
                            plus(Seq::empty(), "content_hash"@, JsonV::Str(content_hash)),
                            "sink"@,
                            JsonV::Str(sink),
                        ),
                        "store_id"@,
                        given_text(store_id),
                    ),
                    "store_op"@,
                    JsonV::Str(store_op),
                ),
                ..bare(
                    "store.started"@,
                    timestamp,
                    run_id,
                    Some(op_id),
                    parent_op_id,
                    PublicStatus::Started,
                )
            },
        ),
        EventV::StoreResult {
            run_id,
            op_id,
            parent_op_id,
            sink,
            sink_id,
            duration_ms,
            timestamp,
        } => Some(
            PublicEventV {
                attrs: plus(
                    plus(
                        plus(Seq::empty(), "duration_ms"@, JsonV::Int(duration_ms as int)),
                        "sink"@,
                        JsonV::Str(sink),
                    ),
                    "sink_id"@,
                    JsonV::Str(sink_id),
                ),
                ..bare(
                    "store.completed"@,
                    timestamp,
                    run_id,
                    Some(op_id),
                    parent_op_id,
                    PublicStatus::Completed,
                )
            },
        ),
        EventV::StoreError {
            run_id,
            op_id,
            parent_op_id,
            sink,
            error,
            duration_ms,
            timestamp,
        } => Some(
            PublicEventV {
                error: Some(error),
                attrs: plus(
                    plus(Seq::empty(), "duration_ms"@, JsonV::Int(duration_ms as int)),
                    "sink"@,
                    JsonV::Str(sink),
                ),
                ..bare(
                    "store.failed"@,
                    timestamp,
                    run_id,
                    Some(op_id),
                    parent_op_id,
                    PublicStatus::Failed,
                )
            },
        ),
        EventV::ToolCall {
            run_id,
            op_id,
            parent_op_id,
            name,
            arguments,
            effect,
            timestamp,
        } => Some(
            PublicEventV {
                effect: opt_public(effect),
                payload_preview: excerpt(arguments),
                attrs: plus(Seq::empty(), "name"@, JsonV::Str(name)),
                ..bare(
                    "tool.requested"@,
                    timestamp,
                    run_id,
                    Some(op_id),
                    parent_op_id,
                    PublicStatus::Started,
                )
            },
        ),
        EventV::ToolResult {
            run_id,
            op_id,
            parent_op_id,
            name,
            result_preview,
            duration_ms,
            timestamp,
            ..
        } => Some(
            PublicEventV {
                payload_preview: non_empty(result_preview),
                attrs: plus(
                    plus(Seq::empty(), "duration_ms"@, JsonV::Int(duration_ms as int)),
                    "name"@,
                    JsonV::Str(name),
                ),
                ..bare(
                    "tool.completed"@,
                    timestamp,
                    run_id,
                    Some(op_id),
                    parent_op_id,
                    PublicStatus::Completed,
                )
            },
        ),
        EventV::ToolError {
            run_id,
            op_id,
            parent_op_id,
            name,
            error,
            duration_ms,
            timestamp,
        } => Some(
            PublicEventV {
                error: Some(error),
                attrs: plus(
                    plus(Seq::empty(), "duration_ms"@, JsonV::Int(duration_ms as int)),
                    "name"@,
                    JsonV::Str(name),
                ),
                ..bare(
                    "tool.failed"@,
                    timestamp,
                    run_id,
                    Some(op_id),
                    parent_op_id,
                    PublicStatus::Failed,
                )
            },
        ),
        EventV::ApprovalRequested { run_id, pending_id, kind, request, effect, timestamp } => Some(
            PublicEventV {
                effect: Some(public_effect(effect)),
                payload_preview: excerpt(request),
                attrs: plus(
                    plus(Seq::empty(), "kind"@, JsonV::Str(kind)),
                    "pending_id"@,
                    JsonV::Str(pending_id),
                ),
                ..bare("approval.requested"@, timestamp, run_id, None, None, PublicStatus::Started)
            },
        ),
        EventV::ApprovalResolved {
            run_id,
            pending_id,
            effect_id,
            kind,
            decision,
            resolved_by,
            reason,
            timestamp,
        } => Some(
            PublicEventV {
                attrs: plus_given(
                    plus_given(
                        plus(
                            plus(
                                plus(
                                    plus(Seq::empty(), "decision"@, JsonV::Str(decision)),
                                    "effect_id"@,
                                    JsonV::Str(effect_id),
                                ),
                                "kind"@,
                                JsonV::Str(kind),
                            ),
                            "pending_id"@,
                            JsonV::Str(pending_id),
                        ),
                        "reason"@,
                        given_text(reason),
                    ),
                    "resolved_by"@,
                    given_text(resolved_by),
                ),
                ..bare("approval.resolved"@, timestamp, run_id, None, None, PublicStatus::Completed)
            },
        ),
        EventV::AgentDone { run_id, usage, timestamp } => Some(
            PublicEventV {
                attrs: match usage {
                    Some(u) => usage_attrs(u),
                    None => Seq::empty(),
                },
                ..bare("run.completed"@, timestamp, run_id, None, None, PublicStatus::Completed)
            },
        ),
        EventV::Custom { run_id, name, data, timestamp } => if name == "output_validation_failed"@ {
            Some(
                PublicEventV {
                    error: Some(first_error(data)),
                    payload_preview: validation_excerpt(data),
                    attrs: plus_given(
                        plus_given(Seq::empty(), "attempt"@, data.field("attempt"@)),
                        "errors"@,
                        data.field("errors"@),
                    ),
                    ..bare(
                        "output.validation_failed"@,
                        timestamp,
                        run_id,
                        None,
                        None,
                        PublicStatus::Failed,
                    )
                },
            )
        } else {
            None
        },
        EventV::HydrationStart { .. } => None,
        EventV::HydrationSection { .. } => None,
        EventV::HydrationEnd { .. } => None,
        EventV::ParStart { .. } => None,
        EventV::ParEnd { .. } => None,
        EventV::Checkpoint { .. } => None,
        EventV::TurnBudgetExhausted { .. } => None,
    }
}

fn show_stdout(result: &Json) -> (r: Option<String>)
    ensures
        op::opt_text(r) == stdout_excerpt(result@),
{
    match result.get_str("stdout") {
        Some(s) => {
            if s.is_empty() {
                None
            } else {
                Some(preview(s, PAYLOAD_PREVIEW_MAX_CHARS))
            }
        },
        None => None,
    }
}

fn show_excerpt(v: &Json) -> (r: Option<String>)
    ensures
        op::opt_text(r) == excerpt(v@),
{
    Some(preview(v.to_text().as_str(), PAYLOAD_PREVIEW_MAX_CHARS))
}

fn show_first_error(data: &Json) -> (r: String)
    ensures
        r@ == first_error(data@),
{
    match data.get("errors") {
        Some(list) => match list.at(0) {
            Some(e) => match e.as_str() {
                Some(s) => s.to_owned(),
                None => "output failed schema validation".to_owned(),
            },
            None => "output failed schema validation".to_owned(),
        },
        None => "output failed schema validation".to_owned(),
    }
}

/// The public view of an event of an inference.
fn publish_infer(event: &Event) -> (r: Option<PublicEvent>)
    requires
        event is InferCall || event is InferResult || event is InferError,
    ensures
        match r {
            Some(p) => published(event@) == Some(p@),
            None => published(event@) is None,
        },
{
    match event {
        Event::InferCall {
            run_id,
            op_id,
            parent_op_id,
            model,
            prompt_preview,
            effect,
            timestamp,
            ..
        } => {
            let mut out = base(
                "infer.started",
                *timestamp,
                run_id.as_str(),
                Some(*op_id),
                *parent_op_id,
                PublicStatus::Started,
            );
            out.effect = publish_effect(effect);
            out.payload_preview = non_empty_preview(prompt_preview.as_str());
            add_field(&mut out.attrs, "model", Json::Str(model.clone()));
            Some(out)
        },
        Event::InferResult {
            run_id,
            op_id,
            parent_op_id,
            response_preview,
            input_tokens,
            output_tokens,
            total_tokens,
            cached_input_tokens,
            cost_micro_usd,
            pricing,
            duration_ms,
            timestamp,
            ..
        } => {
            let mut out = base(
                "infer.completed",
                *timestamp,
                run_id.as_str(),
                Some(*op_id),
                *parent_op_id,
                PublicStatus::Completed,
            );
            out.payload_preview = non_empty_preview(response_preview.as_str());
            add_given(&mut out.attrs, "cached_input_tokens", give_int(widen(*cached_input_tokens)));
            add_given(&mut out.attrs, "cost_micro_usd", give_int(*cost_micro_usd));
            add_field(&mut out.attrs, "duration_ms", Json::Int(*duration_ms as i128));
            add_field(&mut out.attrs, "input_tokens", Json::Int(*input_tokens as i128));
            add_field(&mut out.attrs, "output_tokens", Json::Int(*output_tokens as i128));
            add_given(&mut out.attrs, "pricing", give_pricing(*pricing));
            add_field(&mut out.attrs, "total_tokens", Json::Int(*total_tokens as i128));
            Some(out)
        },
        Event::InferError { run_id, op_id, parent_op_id, error, duration_ms, timestamp } => {
            let mut out = base(
                "infer.failed",
                *timestamp,
                run_id.as_str(),
                Some(*op_id),
                *parent_op_id,
                PublicStatus::Failed,
            );
            out.error = Some(error.clone());
            add_field(&mut out.attrs, "duration_ms", Json::Int(*duration_ms as i128));
            Some(out)
        },
        _ => None,
    }
}

/// The public view of an event of an evaluation.
fn publish_eval(event: &Event) -> (r: Option<PublicEvent>)
    requires
        event is EvalCall || event is EvalResult || event is EvalError,
    ensures
        match r {
            Some(p) => published(event@) == Some(p@),
            None => published(event@) is None,
        },
{
    match event {
        Event::EvalCall {
            run_id,
            op_id,
            parent_op_id,
            command,
            argv,
            cwd,
            env_policy,
            timeout_ms,
            effect,
            timestamp,
        } => {
            let mut out = base(
                "eval.started",
                *timestamp,
                run_id.as_str(),
                Some(*op_id),
                *parent_op_id,
                PublicStatus::Started,
            );
            out.effect = publish_effect(effect);
            out.payload_preview = non_empty_preview(command.as_str());
            add_given(&mut out.attrs, "argv", give_texts(argv));
            add_given(&mut out.attrs, "cwd", give_text(cwd));
            add_field(&mut out.attrs, "env_policy", Json::Str(env_policy.clone()));
            add_field(&mut out.attrs, "timeout_ms", Json::Int(*timeout_ms as i128));
            Some(out)
        },
        Event::EvalResult {
            run_id,
            op_id,
            parent_op_id,
            command,
            result,
            duration_ms,
            truncated_stdout,
            truncated_stderr,
            timestamp,
        } => {
            let mut out = base(
                "eval.completed",
                *timestamp,
                run_id.as_str(),
                Some(*op_id),
                *parent_op_id,
                PublicStatus::Completed,
            );
            out.payload_preview = show_stdout(result);
            add_field(&mut out.attrs, "command", Json::Str(command.clone()));
            add_field(&mut out.attrs, "duration_ms", Json::Int(*duration_ms as i128));
            add_given(&mut out.attrs, "exit_code", give_i64(result, "status"));
            add_given(&mut out.attrs, "ok", give_bool(result, "ok"));
            add_given(&mut out.attrs, "timed_out", give_bool(result, "timed_out"));
            add_field(&mut out.attrs, "truncated_stderr", Json::Bool(*truncated_stderr));
            add_field(&mut out.attrs, "truncated_stdout", Json::Bool(*truncated_stdout));
            Some(out)
        },
        Event::EvalError {
            run_id,
            op_id,
            parent_op_id,
            command,
            error,
            duration_ms,
            timestamp,
        } => {
            let mut out = base(
                "eval.failed",
                *timestamp,
                run_id.as_str(),
                Some(*op_id),
                *parent_op_id,
                PublicStatus::Failed,
            );
            out.error = Some(error.clone());
            add_field(&mut out.attrs, "command", Json::Str(command.clone()));
            add_field(&mut out.attrs, "duration_ms", Json::Int(*duration_ms as i128));
            Some(out)
        },
        _ => None,
    }
}

/// The public view of an event of a retrieval.
fn publish_retrieve(event: &Event) -> (r: Option<PublicEvent>)
    requires
        event is RetrieveCall || event is RetrieveResult || event is RetrieveError,
    ensures
        match r {
            Some(p) => published(event@) == Some(p@),
            None => published(event@) is None,
        },
{
    match event {
        Event::RetrieveCall {
            run_id,
            op_id,
            parent_op_id,
            query,
            kind,
            max_bytes,
            effect,
            timestamp,
        } => {
            let mut out = base(
                "retrieve.started",
                *timestamp,
                run_id.as_str(),
                Some(*op_id),
                *parent_op_id,
                PublicStatus::Started,
            );
            out.effect = publish_effect(effect);
            out.payload_preview = non_empty_preview(query.as_str());
            add_given(&mut out.attrs, "kind", give_text(kind));
            add_given(&mut out.attrs, "max_bytes", give_size(*max_bytes));
            Some(out)
        },
        Event::RetrieveResult {
            run_id,
            op_id,
            parent_op_id,
            result_preview,
            source_count,
            bytes,
            duration_ms,
            timestamp,
            ..
        } => {
            let mut out = base(
                "retrieve.completed",
                *timestamp,
                run_id.as_str(),
                Some(*op_id),
                *parent_op_id,
                PublicStatus::Completed,
            );
            out.payload_preview = non_empty_preview(result_preview.as_str());
            add_field(&mut out.attrs, "bytes", Json::Int(*bytes as i128));
            add_field(&mut out.attrs, "duration_ms", Json::Int(*duration_ms as i128));
            add_field(&mut out.attrs, "source_count", Json::Int(*source_count as i128));
            Some(out)
        },
        Event::RetrieveError { run_id, op_id, parent_op_id, error, duration_ms, timestamp } => {
            let mut out = base(
                "retrieve.failed",
                *timestamp,
                run_id.as_str(),
                Some(*op_id),
                *parent_op_id,
                PublicStatus::Failed,
            );
            out.error = Some(error.clone());
            add_field(&mut out.attrs, "duration_ms", Json::Int(*duration_ms as i128));
            Some(out)
        },
        _ => None,
    }
}

/// The public view of an event of a store.
fn publish_store(event: &Event) -> (r: Option<PublicEvent>)
    requires
        event is StoreCall || event is StoreResult || event is StoreError,
    ensures
        match r {
            Some(p) => published(event@) == Some(p@),
            None => published(event@) is None,
        },
{
    match event {
        Event::StoreCall {
            run_id,
            op_id,
            parent_op_id,
            sink,
            store_op,
            store_id,
            item_preview,
            content_hash,
            effect,
            timestamp,
        } => {
            let mut out = base(
                "store.started",
                *timestamp,
                run_id.as_str(),
                Some(*op_id),
                *parent_op_id,
                PublicStatus::Started,
            );
            out.effect = publish_effect(effect);
            out.payload_preview = non_empty_preview(item_preview.as_str());
            add_field(&mut out.attrs, "content_hash", Json::Str(content_hash.clone()));
            add_field(&mut out.attrs, "sink", Json::Str(sink.clone()));
            add_given(&mut out.attrs, "store_id", give_text(store_id));
            add_field(&mut out.attrs, "store_op", Json::Str(store_op.clone()));
            Some(out)
        },
        Event::StoreResult {
            run_id,
            op_id,
            parent_op_id,
            sink,
            sink_id,
            duration_ms,
            timestamp,
        } => {
            let mut out = base(
                "store.completed",
                *timestamp,
                run_id.as_str(),
                Some(*op_id),
                *parent_op_id,
                PublicStatus::Completed,
            );
            add_field(&mut out.attrs, "duration_ms", Json::Int(*duration_ms as i128));
            add_field(&mut out.attrs, "sink", Json::Str(sink.clone()));
            add_field(&mut out.attrs, "sink_id", Json::Str(sink_id.clone()));
            Some(out)
        },
        Event::StoreError { run_id, op_id, parent_op_id, sink, error, duration_ms, timestamp } => {
            let mut out = base(
                "store.failed",
                *timestamp,
                run_id.as_str(),
                Some(*op_id),
                *parent_op_id,
                PublicStatus::Failed,
            );
            out.error = Some(error.clone());
            add_field(&mut out.attrs, "duration_ms", Json::Int(*duration_ms as i128));
            add_field(&mut out.attrs, "sink", Json::Str(sink.clone()));
            Some(out)
        },
        _ => None,
    }
}

/// The public view of an event of a tool call.
fn publish_tool(event: &Event) -> (r: Option<PublicEvent>)
    requires
        event is ToolCall || event is ToolResult || event is ToolError,
    ensures
        match r {
            Some(p) => published(event@) == Some(p@),
            None => published(event@) is None,
        },
{
    match event {
        Event::ToolCall { run_id, op_id, parent_op_id, name, arguments, effect, timestamp } => {
            let mut out = base(
                "tool.requested",
                *timestamp,
                run_id.as_str(),
                Some(*op_id),
                *parent_op_id,
                PublicStatus::Started,
            );
            out.effect = publish_effect(effect);
            out.payload_preview = show_excerpt(arguments);
            add_field(&mut out.attrs, "name", Json::Str(name.clone()));
            Some(out)
        },
        Event::ToolResult {
            run_id,
            op_id,
            parent_op_id,
            name,
            result_preview,
            duration_ms,
            timestamp,
            ..
        } => {
            let mut out = base(
                "tool.completed",
                *timestamp,
                run_id.as_str(),
                Some(*op_id),
                *parent_op_id,
                PublicStatus::Completed,
            );
            out.payload_preview = non_empty_preview(result_preview.as_str());
            add_field(&mut out.attrs, "duration_ms", Json::Int(*duration_ms as i128));
            add_field(&mut out.attrs, "name", Json::Str(name.clone()));
            Some(out)
        },
        Event::ToolError { run_id, op_id, parent_op_id, name, error, duration_ms, timestamp } => {
            let mut out = base(
                "tool.failed",
                *timestamp,
                run_id.as_str(),
                Some(*op_id),
                *parent_op_id,
                PublicStatus::Failed,
            );
            out.error = Some(error.clone());
            add_field(&mut out.attrs, "duration_ms", Json::Int(*duration_ms as i128));
            add_field(&mut out.attrs, "name", Json::Str(name.clone()));
            Some(out)
        },
        _ => None,
    }
}

/// The public view of an event of an approval.
fn publish_approval(event: &Event) -> (r: Option<PublicEvent>)
    requires
        event is ApprovalRequested || event is ApprovalResolved,
    ensures
        match r {
            Some(p) => published(event@) == Some(p@),
            None => published(event@) is None,
        },
{
    match event {
        Event::ApprovalRequested { run_id, pending_id, kind, request, effect, timestamp } => {
            let mut out = base(
                "approval.requested",
                *timestamp,
                run_id.as_str(),
                None,
                None,
                PublicStatus::Started,
            );
            out.effect = Some(PublicEffect::of(effect));
            out.payload_preview = show_excerpt(request);
            add_field(&mut out.attrs, "kind", Json::Str(kind.clone()));
            add_field(&mut out.attrs, "pending_id", Json::Str(pending_id.clone()));
            Some(out)
        },
        Event::ApprovalResolved {
            run_id,
            pending_id,
            effect_id,
            kind,
            decision,
            resolved_by,
            reason,
            timestamp,
        } => {
            let mut out = base(
                "approval.resolved",
                *timestamp,
                run_id.as_str(),
                None,
                None,
                PublicStatus::Completed,
            );
            add_field(&mut out.attrs, "decision", Json::Str(decision.clone()));
            add_field(&mut out.attrs, "effect_id", Json::Str(effect_id.clone()));
            add_field(&mut out.attrs, "kind", Json::Str(kind.clone()));
            add_field(&mut out.attrs, "pending_id", Json::Str(pending_id.clone()));
            add_given(&mut out.attrs, "reason", give_text(reason));
            add_given(&mut out.attrs, "resolved_by", give_text(resolved_by));
            Some(out)
        },
        _ => None,
    }
}

/// The public view of an event, or nothing for an internal one.
pub fn public_event(event: &Event) -> (r: Option<PublicEvent>)
    ensures
        match r {
            Some(p) => published(event@) == Some(p@),
            None => published(event@) is None,
        },
{
    match event {
        Event::InferCall { .. } | Event::InferResult { .. }
            | Event::InferError { .. } => publish_infer(event),
        Event::EvalCall { .. } | Event::EvalResult { .. }
            | Event::EvalError { .. } => publish_eval(event),
        Event::RetrieveCall { .. } | Event::RetrieveResult { .. }
            | Event::RetrieveError { .. } => publish_retrieve(event),
        Event::StoreCall { .. } | Event::StoreResult { .. }
            | Event::StoreError { .. } => publish_store(event),
        Event::ToolCall { .. } | Event::ToolResult { .. }
            | Event::ToolError { .. } => publish_tool(event),
        Event::ApprovalRequested { .. } | Event::ApprovalResolved { .. } => publish_approval(event),
        Event::AgentDone { run_id, usage, timestamp } => {
            let mut out = base(
                "run.completed",
                *timestamp,
                run_id.as_str(),
                None,
                None,
                PublicStatus::Completed,
            );
            match usage {
                Some(u) => {
                    out.attrs = encode_usage(*u);
                },
                None => {},
            }
            Some(out)
        },
        Event::Custom { run_id, name, data, timestamp } => {
            if !same_text(name.as_str(), OUTPUT_VALIDATION_FAILED_EVENT) {
                return None;
            }
            let mut out = base(
                "output.validation_failed",
                *timestamp,
                run_id.as_str(),
                None,
                None,
                PublicStatus::Failed,
            );
            out.error = Some(show_first_error(data));
            out.payload_preview = match data.get_str("preview") {
                Some(s) => non_empty_preview(s),
                None => None,
            };
            add_given(&mut out.attrs, "attempt", give_field(data, "attempt"));
            add_given(&mut out.attrs, "errors", give_field(data, "errors"));
            Some(out)
        },
        Event::HydrationStart { .. } => None,
        Event::HydrationSection { .. } => None,
        Event::HydrationEnd { .. } => None,
        Event::ParStart { .. } => None,
        Event::ParEnd { .. } => None,
        Event::Checkpoint { .. } => None,
        Event::TurnBudgetExhausted { .. } => None,
    }
}

/// Every public event keeps the schema: one version, a session that is the
/// run, an error exactly on failure, and reserved fields left out.
pub proof fn public_events_keep_the_schema(e: EventV)
    ensures
        published(e) matches Some(p) ==> {
            &&& p.schema_version == PUBLIC_SCHEMA_VERSION
            &&& p.session_id == p.run_id
            &&& p.error is Some <==> p.status == PublicStatus::Failed
            &&& p.turn_id is None
            &&& p.parent_effect_id is None
            &&& p.payload_ref is None
        },
{
}

/// Outcomes carry no effect of their own, and approvals no operation: the
/// one is found by its operation, the other by its pending id.
pub proof fn public_correlation(e: EventV)
    ensures
        published(e) matches Some(p) ==> {
            &&& p.status != PublicStatus::Started ==> p.effect is None
            &&& e is ApprovalRequested || e is ApprovalResolved ==> p.op_id is None
        },
{
}

} // verus!
