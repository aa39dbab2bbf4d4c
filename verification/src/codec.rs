//! The JSON shapes of messages, tool calls and completions.
use crate::ir_hash::record2;
use crate::json;
use crate::json::{copy_fields, object_of, Json, JsonV};
use crate::op;
use crate::op::{
    new_message_id, ChatMessage, ChatMessageV, FinishReason, FinishReasonV, Response, ResponseV,
    Said, ToolCall, ToolCallV,
};
use crate::trace::Pricing;
use vstd::prelude::*;

verus! {

/// The hyphenated lower-case text of a UUID.
pub uninterp spec fn uuid_text(id: u128) -> Seq<char>;

/// Whether a text has the form of a UUID: groups of eight, four, four, four and
/// twelve lower-case hexadecimal digits between hyphens.
pub open spec fn is_uuid(s: Seq<char>) -> bool {
    &&& s.len() == 36
    &&& forall|i: int|
        0 <= i < 36 ==> if i == 8 || i == 13 || i == 18 || i == 23 {
            #[trigger] s[i] == '-'
        } else {
            ('0' <= s[i] <= '9') || ('a' <= s[i] <= 'f')
        }
}

/// Renders an identity with `uuid::Uuid`'s `Display`; the text depends on the
/// identity alone and has the hyphenated form.
#[verifier::external_body]
pub(crate) fn render_uuid(id: u128) -> (r: String)
    ensures
        r@ == uuid_text(id),
        is_uuid(r@),
{
    uuid::Uuid::from_u128(id).to_string()
}

/// The JSON shape of a tool call.
pub open spec fn call_json(c: ToolCallV) -> JsonV {
    json::object(
        seq![
            ("id"@, JsonV::Str(c.id)),
            ("name"@, JsonV::Str(c.name)),
            ("arguments"@, c.arguments),
        ],
    )
}

/// The JSON shape of a list of tool calls.
pub open spec fn calls_json(list: Seq<ToolCallV>) -> JsonV {
    JsonV::Array(Seq::new(list.len(), |i: int| call_json(list[i])))
}

/// An optional text, null where it is absent.
pub open spec fn nullable(s: Option<Seq<char>>) -> JsonV {
    match s {
        Some(t) => JsonV::Str(t),
        None => JsonV::Null,
    }
}

/// The JSON shape of a message: absent call fields are left out, an absent
/// content is null.
pub open spec fn message_json(m: ChatMessageV) -> JsonV {
    let base = seq![
        ("id"@, JsonV::Str(uuid_text(m.id))),
        ("role"@, JsonV::Str(m.role)),
        ("content"@, nullable(m.content)),
    ];
    let with_id = match m.tool_call_id {
        Some(id) => base.push(("tool_call_id"@, JsonV::Str(id))),
        None => base,
    };
    json::object(
        match m.tool_calls {
            Some(list) => with_id.push(("tool_calls"@, calls_json(list))),
            None => with_id,
        },
    )
}

/// The JSON shape of a history.
pub open spec fn messages_json(list: Seq<ChatMessageV>) -> JsonV {
    JsonV::Array(Seq::new(list.len(), |i: int| message_json(list[i])))
}

/// The JSON shape of a finish reason.
pub open spec fn reason_json(r: FinishReasonV) -> JsonV {
    match r {
        FinishReasonV::Stop => JsonV::Str("stop"@),
        FinishReasonV::ToolCalls => JsonV::Str("tool_calls"@),
        FinishReasonV::Length => JsonV::Str("length"@),
        FinishReasonV::ContentFilter => JsonV::Str("content_filter"@),
        FinishReasonV::Other(s) => json::object(seq![("other"@, JsonV::Str(s))]),
    }
}

/// The JSON shape of a price.
pub open spec fn pricing_json(p: Pricing) -> JsonV {
    JsonV::Object(
        seq![
            ("input_micro_usd_per_mtok"@, JsonV::Int(p.input_micro_usd_per_mtok as int)),
            ("output_micro_usd_per_mtok"@, JsonV::Int(p.output_micro_usd_per_mtok as int)),
        ],
    )
}

/// A list of fields with one more, if there is a value for it.
pub open spec fn given(list: json::Fields, key: Seq<char>, value: Option<JsonV>) -> json::Fields {
    match value {
        Some(v) => list.push((key, v)),
        None => list,
    }
}

/// The JSON shape of the optional parts of a completion.
pub open spec fn optional_parts(r: ResponseV) -> (
    Option<JsonV>,
    Option<JsonV>,
    Option<JsonV>,
    Option<JsonV>,
    Option<JsonV>,
) {
    (
        match r.finish_reason {
            Some(reason) => Some(reason_json(reason)),
            None => None,
        },
        match r.cached_input_tokens {
            Some(n) => Some(JsonV::Int(n as int)),
            None => None,
        },
        match r.cost_micro_usd {
            Some(n) => Some(JsonV::Int(n as int)),
            None => None,
        },
        match r.pricing {
            Some(p) => Some(pricing_json(p)),
            None => None,
        },
        if r.metadata.len() == 0 {
            None
        } else {
            Some(JsonV::Object(r.metadata))
        },
    )
}

/// The fields that every completion has.
pub open spec fn given_parts(r: ResponseV) -> json::Fields {
    seq![
        ("content"@, JsonV::Str(r.content)),
        ("tool_calls"@, calls_json(r.tool_calls)),
        ("input_tokens"@, JsonV::Int(r.input_tokens as int)),
        ("output_tokens"@, JsonV::Int(r.output_tokens as int)),
        ("total_tokens"@, JsonV::Int(r.total_tokens as int)),
    ]
}

/// The JSON shape of a completion: what it does not have is left out.
pub open spec fn response_json(r: ResponseV) -> JsonV {
    let (reason, cached, cost, pricing, metadata) = optional_parts(r);
    let list = given(given_parts(r), "finish_reason"@, reason);
    let list = given(list, "cached_input_tokens"@, cached);
    let list = given(list, "cost_micro_usd"@, cost);
    let list = given(list, "pricing"@, pricing);
    json::object(given(list, "metadata"@, metadata))
}

/// Appends one named value to a list of fields.
pub(crate) fn add_field(list: &mut Vec<(String, Json)>, key: &str, value: Json)
    ensures
        json::fields(final(list)@) == json::fields(old(list)@).push((key@, value@)),
{
    let ghost before = list@;
    let item = (key.to_owned(), value);
    list.push(item);
    assert(json::fields(list@) =~= json::fields(before).push((item.0@, item.1@)));
}

pub fn encode_call(c: &ToolCall) -> (r: Json)
    ensures
        r@ == call_json(c@),
{
    let mut list: Vec<(String, Json)> = Vec::new();
    add_field(&mut list, "id", Json::Str(c.id.clone()));
    add_field(&mut list, "name", Json::Str(c.name.clone()));
    add_field(&mut list, "arguments", c.arguments.clone());
    assert(json::fields(list@) =~= seq![
        ("id"@, JsonV::Str(c@.id)),
        ("name"@, JsonV::Str(c@.name)),
        ("arguments"@, c@.arguments),
    ]);
    object_of(list)
}

pub fn encode_calls(list: &Vec<ToolCall>) -> (r: Json)
    ensures
        r@ == calls_json(op::calls(list@)),
{
    broadcast use json::group_json;

    let mut out: Vec<Json> = Vec::new();
    let mut i: usize = 0;
    while i < list.len()
        invariant
            i <= list@.len(),
            out@.len() == i,
            forall|j: int| 0 <= j < i ==> (#[trigger] out@[j])@ == call_json(list@[j]@),
        decreases list@.len() - i,
    {
        out.push(encode_call(&list[i]));
        i += 1;
    }
    assert(json::values(out@) =~= calls_json(op::calls(list@))->Array_0);
    Json::Array(out)
}

fn encode_nullable(s: &Option<String>) -> (r: Json)
    ensures
        r@ == nullable(op::opt_text(*s)),
{
    match s {
        Some(t) => Json::Str(t.clone()),
        None => Json::Null,
    }
}

pub fn encode_message(m: &ChatMessage) -> (r: Json)
    ensures
        r@ == message_json(m@),
{
    let mut list: Vec<(String, Json)> = Vec::new();
    add_field(&mut list, "id", Json::Str(render_uuid(m.id)));
    add_field(&mut list, "role", Json::Str(m.role.clone()));
    add_field(&mut list, "content", encode_nullable(&m.content));
    assert(json::fields(list@) =~= seq![
        ("id"@, JsonV::Str(uuid_text(m@.id))),
        ("role"@, JsonV::Str(m@.role)),
        ("content"@, nullable(m@.content)),
    ]);
    if let Some(id) = &m.tool_call_id {
        add_field(&mut list, "tool_call_id", Json::Str(id.clone()));
    }
    if let Some(calls) = &m.tool_calls {
        add_field(&mut list, "tool_calls", encode_calls(calls));
    }
    object_of(list)
}

pub fn encode_messages(list: &Vec<ChatMessage>) -> (r: Json)
    ensures
        r@ == messages_json(op::messages(list@)),
{
    broadcast use json::group_json;

    let mut out: Vec<Json> = Vec::new();
    let mut i: usize = 0;
    while i < list.len()
        invariant
            i <= list@.len(),
            out@.len() == i,
            forall|j: int| 0 <= j < i ==> (#[trigger] out@[j])@ == message_json(list@[j]@),
        decreases list@.len() - i,
    {
        out.push(encode_message(&list[i]));
        i += 1;
    }
    assert(json::values(out@) =~= messages_json(op::messages(list@))->Array_0);
    Json::Array(out)
}

pub fn encode_reason(r: &FinishReason) -> (v: Json)
    ensures
        v@ == reason_json(r@),
{
    match r {
        FinishReason::Stop => Json::text("stop"),
        FinishReason::ToolCalls => Json::text("tool_calls"),
        FinishReason::Length => Json::text("length"),
        FinishReason::ContentFilter => Json::text("content_filter"),
        FinishReason::Other(s) => {
            let mut list: Vec<(String, Json)> = Vec::new();
            add_field(&mut list, "other", Json::Str(s.clone()));
            assert(json::fields(list@) =~= seq![("other"@, JsonV::Str(s@))]);
            object_of(list)
        },
    }
}

pub fn encode_pricing(p: Pricing) -> (v: Json)
    ensures
        v@ == pricing_json(p),
{
    broadcast use json::group_json;

    record2(
        "input_micro_usd_per_mtok",
        Json::Int(p.input_micro_usd_per_mtok as i128),
        "output_micro_usd_per_mtok",
        Json::Int(p.output_micro_usd_per_mtok as i128),
    )
}

pub fn encode_response(r: &Response) -> (v: Json)
    ensures
        v@ == response_json(r@),
{
    broadcast use json::group_json;

    let mut list: Vec<(String, Json)> = Vec::new();
    add_field(&mut list, "content", Json::Str(r.content.clone()));
    add_field(&mut list, "tool_calls", encode_calls(&r.tool_calls));
    add_field(&mut list, "input_tokens", Json::Int(r.input_tokens as i128));
    add_field(&mut list, "output_tokens", Json::Int(r.output_tokens as i128));
    add_field(&mut list, "total_tokens", Json::Int(r.total_tokens as i128));
    assert(json::fields(list@) =~= given_parts(r@));
    if let Some(reason) = &r.finish_reason {
        add_field(&mut list, "finish_reason", encode_reason(reason));
    }
    if let Some(n) = r.cached_input_tokens {
        add_field(&mut list, "cached_input_tokens", Json::Int(n as i128));
    }
    if let Some(n) = r.cost_micro_usd {
        add_field(&mut list, "cost_micro_usd", Json::Int(n as i128));
    }
    if let Some(p) = r.pricing {
        add_field(&mut list, "pricing", encode_pricing(p));
    }
    if r.metadata.len() > 0 {
        add_field(&mut list, "metadata", Json::Object(copy_fields(&r.metadata)));
    }
    object_of(list)
}

/// The arguments that a JSON-encoded argument text stands for: the value where
/// it parses, else the text itself under `raw`.
pub open spec fn decoded_arguments(text: Seq<char>) -> JsonV {
    match json::parsed(text) {
        Ok(v) => v,
        Err(_) => raw_arguments(text),
    }
}

/// An argument text that is no JSON.
pub open spec fn raw_arguments(text: Seq<char>) -> JsonV {
    json::object(seq![("raw"@, JsonV::Str(text))])
}

/// The arguments, given what parsing the text gave.
pub fn arguments_or_raw(text: &str, outcome: Result<Json, String>) -> (r: Json)
    ensures
        match outcome {
            Ok(v) => r@ == v@,
            Err(_) => r@ == raw_arguments(text@),
        },
{
    match outcome {
        Ok(v) => v,
        Err(_) => {
            let mut list: Vec<(String, Json)> = Vec::new();
            add_field(&mut list, "raw", Json::text(text));
            assert(json::fields(list@) =~= seq![("raw"@, JsonV::Str(text@))]);
            object_of(list)
        },
    }
}

/// The arguments that a JSON-encoded argument text stands for.
pub fn decode_arguments(text: &str) -> (r: Json)
    ensures
        r@ == decoded_arguments(text@),
{
    arguments_or_raw(text, json::parse(text))
}

/// A part of a record: the field of that name or, where the record is written
/// as a row of all its `n` parts, the one at its place.
pub open spec fn part(v: JsonV, key: Seq<char>, at: int, n: nat) -> Option<JsonV> {
    match v {
        JsonV::Object(_) => v.field(key),
        JsonV::Array(a) => if a.len() == n {
            Some(a[at])
        } else {
            None
        },
        _ => None,
    }
}

/// A part of a record that is a text.
pub open spec fn text_part(v: JsonV, key: Seq<char>, at: int, n: nat) -> Option<Seq<char>> {
    match part(v, key, at, n) {
        Some(x) => x.as_text(),
        None => None,
    }
}

/// A part of a record.
pub fn get_part<'a>(v: &'a Json, key: &str, at: usize, n: usize) -> (r: Option<&'a Json>)
    requires
        at < n,
    ensures
        match r {
            Some(x) => part(v@, key@, at as int, n as nat) == Some(x@),
            None => part(v@, key@, at as int, n as nat) is None,
        },
{
    broadcast use json::group_json;

    match v {
        Json::Object(_) => v.get(key),
        Json::Array(a) => if a.len() == n {
            Some(&a[at])
        } else {
            None
        },
        _ => None,
    }
}

fn get_text_part<'a>(v: &'a Json, key: &str, at: usize, n: usize) -> (r: Option<&'a str>)
    requires
        at < n,
    ensures
        match r {
            Some(x) => text_part(v@, key@, at as int, n as nat) == Some(x@),
            None => text_part(v@, key@, at as int, n as nat) is None,
        },
{
    match get_part(v, key, at, n) {
        Some(x) => x.as_str(),
        None => None,
    }
}

/// The neutral shape: `id` and `name` are texts, `arguments` is any value.
pub open spec fn neutral_call(v: JsonV) -> Option<ToolCallV> {
    match (text_part(v, "id"@, 0, 3), text_part(v, "name"@, 1, 3), part(v, "arguments"@, 2, 3)) {
        (Some(id), Some(name), Some(arguments)) => Some(ToolCallV { id, name, arguments }),
        _ => None,
    }
}

/// The nested shape: `function` holds the name and the arguments as a text.
pub open spec fn nested_call(v: JsonV) -> Option<(Seq<char>, Seq<char>, Seq<char>)> {
    match (text_part(v, "id"@, 0, 2), part(v, "function"@, 1, 2)) {
        (Some(id), Some(f)) => match (
            text_part(f, "name"@, 0, 2),
            text_part(f, "arguments"@, 1, 2),
        ) {
            (Some(name), Some(arguments)) => Some((id, name, arguments)),
            _ => None,
        },
        _ => None,
    }
}

/// The tool call that a value stands for: the neutral shape, else the nested
/// shape of older records.
pub open spec fn decoded_call(v: JsonV) -> Option<ToolCallV> {
    match neutral_call(v) {
        Some(c) => Some(c),
        None => match nested_call(v) {
            Some((id, name, arguments)) => Some(
                ToolCallV { id, name, arguments: decoded_arguments(arguments) },
            ),
            None => None,
        },
    }
}

/// The tool call that a value stands for.
pub fn decode_call(v: &Json) -> (r: Option<ToolCall>)
    ensures
        match r {
            Some(c) => decoded_call(v@) == Some(c@),
            None => decoded_call(v@) is None,
        },
{
    if let (Some(id), Some(name), Some(arguments)) = (
        get_text_part(v, "id", 0, 3),
        get_text_part(v, "name", 1, 3),
        get_part(v, "arguments", 2, 3),
    ) {
        return Some(ToolCall::new(id, name, arguments.clone()));
    }
    match (get_text_part(v, "id", 0, 2), get_part(v, "function", 1, 2)) {
        (Some(id), Some(f)) => match (
            get_text_part(f, "name", 0, 2),
            get_text_part(f, "arguments", 1, 2),
        ) {
            (Some(name), Some(arguments)) => Some(
                ToolCall::new(id, name, decode_arguments(arguments)),
            ),
            _ => None,
        },
        _ => None,
    }
}

/// The fields of a list with distinct names are read back from its object.
proof fn fields_read_back(list: json::Fields, i: int)
    requires
        0 <= i < list.len(),
        forall|a: int, b: int| 0 <= a < b < list.len() ==> (#[trigger] list[a]).0 != (#[trigger] list[b]).0,
    ensures
        json::object(list).field(list[i].0) == Some(list[i].1),
    decreases list.len(),
{
    let less = list.drop_last();
    let before = json::put_all(Seq::empty(), less);
    let last = list[list.len() - 1];
    assert(json::put_all(Seq::empty(), list) == json::put(before, last.0, last.1));
    if i == list.len() - 1 {
        json::put_then_lookup(before, last.0, last.1);
    } else {
        assert forall|a: int, b: int| 0 <= a < b < less.len() implies (#[trigger] less[a]).0 != (
        #[trigger] less[b]).0 by {
            assert(list[a].0 != list[b].0);
        }
        assert(less[i] == list[i]);
        fields_read_back(less, i);
        assert(list[i].0 != last.0);
        json::put_keeps_others(before, last.0, last.1, list[i].0);
    }
}

/// A field that is not in a list is not in its object.
proof fn missing_field(list: json::Fields, key: Seq<char>)
    requires
        forall|a: int| 0 <= a < list.len() ==> (#[trigger] list[a]).0 != key,
    ensures
        json::object(list).field(key) is None,
    decreases list.len(),
{
    if list.len() > 0 {
        let less = list.drop_last();
        let before = json::put_all(Seq::empty(), less);
        let last = list[list.len() - 1];
        assert(json::put_all(Seq::empty(), list) == json::put(before, last.0, last.1));
        assert forall|a: int| 0 <= a < less.len() implies (#[trigger] less[a]).0 != key by {
            assert(list[a].0 != key);
        }
        missing_field(less, key);
        json::put_keeps_others(before, last.0, last.1, key);
    }
}

proof fn given_is_read(list: json::Fields, key: Seq<char>, value: Option<JsonV>)
    ensures
        forall|other: Seq<char>| #[trigger]
            json::object(given(list, key, value)).field(other) == if value is Some && other == key {
                value
            } else {
                json::object(list).field(other)
            },
{
    if let Some(v) = value {
        let before = json::put_all(Seq::empty(), list);
        assert(list.push((key, v)).drop_last() =~= list);
        assert forall|other: Seq<char>| #[trigger]
            json::object(given(list, key, value)).field(other) == if other == key {
                value
            } else {
                json::object(list).field(other)
            } by {
            if other == key {
                json::put_then_lookup(before, key, v);
            } else {
                json::put_keeps_others(before, key, v, other);
            }
        }
    }
}

/// The names of the parts of a response tell themselves apart.
proof fn part_names()
    ensures
        "content"@.len() == 7,
        "tool_calls"@.len() == 10,
        "input_tokens"@.len() == 12,
        "output_tokens"@.len() == 13,
        "total_tokens"@.len() == 12,
        "finish_reason"@.len() == 13,
        "cached_input_tokens"@.len() == 19,
        "cost_micro_usd"@.len() == 14,
        "pricing"@.len() == 7,
        "metadata"@.len() == 8,
        "content"@[0] == 'c',
        "pricing"@[0] == 'p',
        "input_tokens"@[0] == 'i',
        "total_tokens"@[0] == 't',
        "output_tokens"@[0] == 'o',
        "finish_reason"@[0] == 'f',
{
    reveal_strlit("content");
    reveal_strlit("tool_calls");
    reveal_strlit("input_tokens");
    reveal_strlit("output_tokens");
    reveal_strlit("total_tokens");
    reveal_strlit("finish_reason");
    reveal_strlit("cached_input_tokens");
    reveal_strlit("cost_micro_usd");
    reveal_strlit("pricing");
    reveal_strlit("metadata");
}

/// What a response holds is found in its JSON shape, and nothing is found where
/// it holds nothing.
pub proof fn responses_hold_their_parts(r: ResponseV)
    ensures
        response_json(r).field("content"@) == Some(JsonV::Str(r.content)),
        response_json(r).field("tool_calls"@) == Some(calls_json(r.tool_calls)),
        response_json(r).field("input_tokens"@) == Some(JsonV::Int(r.input_tokens as int)),
        response_json(r).field("output_tokens"@) == Some(JsonV::Int(r.output_tokens as int)),
        response_json(r).field("total_tokens"@) == Some(JsonV::Int(r.total_tokens as int)),
        response_json(r).field("finish_reason"@) == optional_parts(r).0,
        response_json(r).field("cached_input_tokens"@) == optional_parts(r).1,
        response_json(r).field("cost_micro_usd"@) == optional_parts(r).2,
        response_json(r).field("pricing"@) == optional_parts(r).3,
        response_json(r).field("metadata"@) == optional_parts(r).4,
{
    part_names();
    let base = given_parts(r);
    fields_read_back(base, 0);
    fields_read_back(base, 1);
    fields_read_back(base, 2);
    fields_read_back(base, 3);
    fields_read_back(base, 4);
    missing_field(base, "finish_reason"@);
    missing_field(base, "cached_input_tokens"@);
    missing_field(base, "cost_micro_usd"@);
    missing_field(base, "pricing"@);
    missing_field(base, "metadata"@);
    let (reason, cached, cost, pricing, metadata) = optional_parts(r);
    given_is_read(base, "finish_reason"@, reason);
    let list = given(base, "finish_reason"@, reason);
    given_is_read(list, "cached_input_tokens"@, cached);
    let list = given(list, "cached_input_tokens"@, cached);
    given_is_read(list, "cost_micro_usd"@, cost);
    let list = given(list, "cost_micro_usd"@, cost);
    given_is_read(list, "pricing"@, pricing);
    let list = given(list, "pricing"@, pricing);
    given_is_read(list, "metadata"@, metadata);
}

/// A tool call is read back from its own JSON shape.
pub proof fn call_round_trips(c: ToolCallV)
    ensures
        decoded_call(call_json(c)) == Some(c),
{
    reveal_strlit("id");
    reveal_strlit("name");
    reveal_strlit("arguments");
    assert("id"@.len() == 2 && "name"@.len() == 4 && "arguments"@.len() == 9);
    let list = seq![
        ("id"@, JsonV::Str(c.id)),
        ("name"@, JsonV::Str(c.name)),
        ("arguments"@, c.arguments),
    ];
    fields_read_back(list, 0);
    fields_read_back(list, 1);
    fields_read_back(list, 2);
}

/// The identity that a UUID's text stands for.
pub uninterp spec fn uuid_of(s: Seq<char>) -> Option<u128>;

/// Reads an identity with `uuid::Uuid::parse_str`; what is read depends on the
/// text alone, and a rendered identity is read back.
#[verifier::external_body]
fn parse_uuid(s: &str) -> (r: Option<u128>)
    ensures
        r == uuid_of(s@),
        forall|id: u128| s@ == #[trigger] uuid_text(id) ==> r == Some(id),
{
    uuid::Uuid::parse_str(s).ok().map(|id| id.as_u128())
}

/// A text that may be missing or null.
pub open spec fn opt_text_part(v: Option<JsonV>) -> Option<Option<Seq<char>>> {
    match v {
        None => Some(None),
        Some(JsonV::Null) => Some(None),
        Some(JsonV::Str(s)) => Some(Some(s)),
        Some(_) => None,
    }
}

/// The first `n` calls of a list.
pub open spec fn decoded_calls(list: Seq<JsonV>, n: nat) -> Option<Seq<ToolCallV>>
    decreases n,
{
    if n == 0 || n > list.len() {
        Some(Seq::empty())
    } else {
        match (decoded_calls(list, (n - 1) as nat), decoded_call(list[n - 1])) {
            (Some(before), Some(c)) => Some(before.push(c)),
            _ => None,
        }
    }
}

/// Calls that may be missing or null.
pub open spec fn opt_calls_part(v: Option<JsonV>) -> Option<Option<Seq<ToolCallV>>> {
    match v {
        None => Some(None),
        Some(JsonV::Null) => Some(None),
        Some(JsonV::Array(a)) => match decoded_calls(a, a.len()) {
            Some(list) => Some(Some(list)),
            None => None,
        },
        Some(_) => None,
    }
}

/// The identity of a message: none where it is missing.
pub open spec fn id_part(v: Option<JsonV>) -> Option<Option<u128>> {
    match v {
        None => Some(None),
        Some(JsonV::Str(s)) => match uuid_of(s) {
            Some(id) => Some(Some(id)),
            None => None,
        },
        Some(_) => None,
    }
}

/// The message that a value stands for, and its identity where it has one.
pub open spec fn decoded_message(v: JsonV) -> Option<(Option<u128>, Said)> {
    match (
        id_part(part(v, "id"@, 0, 5)),
        text_part(v, "role"@, 1, 5),
        opt_text_part(part(v, "content"@, 2, 5)),
        opt_text_part(part(v, "tool_call_id"@, 3, 5)),
        opt_calls_part(part(v, "tool_calls"@, 4, 5)),
    ) {
        (Some(id), Some(role), Some(content), Some(tool_call_id), Some(tool_calls)) => Some(
            (id, Said { role, content, tool_call_id, tool_calls }),
        ),
        _ => None,
    }
}

/// The model of a value that may be missing.
pub open spec fn opt_value(v: Option<&Json>) -> Option<JsonV> {
    match v {
        Some(x) => Some(x@),
        None => None,
    }
}

/// Reads a text that may be missing or null.
pub fn read_opt_text(v: Option<&Json>) -> (r: Option<Option<String>>)
    ensures
        match r {
            Some(t) => opt_text_part(opt_value(v)) == Some(op::opt_text(t)),
            None => opt_text_part(opt_value(v)) is None,
        },
{
    broadcast use json::group_json;

    match v {
        None => Some(None),
        Some(Json::Null) => Some(None),
        Some(Json::Str(s)) => Some(Some(s.clone())),
        Some(_) => None,
    }
}

proof fn calls_stop(list: Seq<JsonV>, n: nat, m: nat)
    requires
        n <= m <= list.len(),
        decoded_calls(list, n) is None,
    ensures
        decoded_calls(list, m) is None,
    decreases m,
{
    if n < m {
        calls_stop(list, n, (m - 1) as nat);
    }
}

/// Reads a list of calls.
fn decode_calls(list: &Vec<Json>) -> (r: Option<Vec<ToolCall>>)
    ensures
        match r {
            Some(c) => decoded_calls(json::values(list@), list@.len()) == Some(op::calls(c@)),
            None => decoded_calls(json::values(list@), list@.len()) is None,
        },
{
    let ghost all = json::values(list@);
    let mut out: Vec<ToolCall> = Vec::new();
    let mut i: usize = 0;
    assert(op::calls(out@) =~= Seq::empty());
    while i < list.len()
        invariant
            i <= list@.len(),
            all == json::values(list@),
            decoded_calls(all, i as nat) == Some(op::calls(out@)),
        decreases list@.len() - i,
    {
        assert(all[i as int] == list@[i as int]@);
        match decode_call(&list[i]) {
            Some(c) => {
                let ghost before = op::calls(out@);
                out.push(c);
                assert(op::calls(out@) =~= before.push(c@));
            },
            None => {
                proof {
                    calls_stop(all, (i + 1) as nat, all.len());
                }
                return None;
            },
        }
        i += 1;
    }
    Some(out)
}

fn read_opt_calls(v: Option<&Json>) -> (r: Option<Option<Vec<ToolCall>>>)
    ensures
        match r {
            Some(t) => opt_calls_part(opt_value(v)) == Some(op::opt_calls(t)),
            None => opt_calls_part(opt_value(v)) is None,
        },
{
    broadcast use json::group_json;

    match v {
        None => Some(None),
        Some(Json::Null) => Some(None),
        Some(Json::Array(a)) => match decode_calls(a) {
            Some(list) => Some(Some(list)),
            None => None,
        },
        Some(_) => None,
    }
}

/// The list of fields that a message is written with.
spec fn message_fields(m: ChatMessageV) -> json::Fields {
    let base = seq![
        ("id"@, JsonV::Str(uuid_text(m.id))),
        ("role"@, JsonV::Str(m.role)),
        ("content"@, nullable(m.content)),
    ];
    let with_id = match m.tool_call_id {
        Some(id) => base.push(("tool_call_id"@, JsonV::Str(id))),
        None => base,
    };
    match m.tool_calls {
        Some(list) => with_id.push(("tool_calls"@, calls_json(list))),
        None => with_id,
    }
}

proof fn calls_read_back(list: Seq<ToolCallV>, n: nat)
    requires
        n <= list.len(),
    ensures
        decoded_calls(calls_json(list)->Array_0, n) == Some(list.take(n as int)),
    decreases n,
{
    if n > 0 {
        calls_read_back(list, (n - 1) as nat);
        call_round_trips(list[n - 1]);
        assert(list.take(n as int) =~= list.take(n - 1).push(list[n - 1]));
    } else {
        assert(list.take(0) =~= Seq::empty());
    }
}

proof fn message_reads_back(m: ChatMessageV)
    requires
        uuid_of(uuid_text(m.id)) == Some(m.id),
    ensures
        decoded_message(message_json(m)) == Some((Some(m.id), m.said())),
{
    reveal_strlit("id");
    reveal_strlit("role");
    reveal_strlit("content");
    reveal_strlit("tool_call_id");
    reveal_strlit("tool_calls");
    assert("id"@.len() == 2 && "role"@.len() == 4 && "content"@.len() == 7
        && "tool_call_id"@.len() == 12 && "tool_calls"@.len() == 10);
    let list = message_fields(m);
    let v = message_json(m);
    assert(v == json::object(list));
    fields_read_back(list, 0);
    fields_read_back(list, 1);
    fields_read_back(list, 2);
    match m.tool_call_id {
        Some(id) => {
            fields_read_back(list, 3);
        },
        None => {
            missing_field(list, "tool_call_id"@);
        },
    }
    match m.tool_calls {
        Some(calls) => {
            fields_read_back(list, list.len() - 1);
            calls_read_back(calls, calls.len());
            assert(calls.take(calls.len() as int) =~= calls);
            assert((calls_json(calls)->Array_0).len() == calls.len());
        },
        None => {
            missing_field(list, "tool_calls"@);
        },
    }
}

/// Reads a message.  One without an identity gets a fresh one; a message is
/// read back from its own JSON shape.
pub fn decode_message(v: &Json) -> (r: Option<ChatMessage>)
    ensures
        match (r, decoded_message(v@)) {
            (Some(m), Some((id, said))) => m@.said() == said && (id is Some ==> Some(m@.id) == id),
            (None, None) => true,
            _ => false,
        },
        forall|m: ChatMessageV| #[trigger] message_json(m) == v@ ==> r is Some && r->0@ == m,
{
    broadcast use json::group_json;

    let id: Option<Option<u128>> = match get_part(v, "id", 0, 5) {
        None => Some(None),
        Some(Json::Str(s)) => {
            let x = parse_uuid(s.as_str());
            proof {
                assert forall|m: ChatMessageV| #[trigger] message_json(m) == v@ implies uuid_of(
                    uuid_text(m.id),
                ) == Some(m.id) by {
                    identity_is_written(m);
                }
            }
            match x {
                Some(id) => Some(Some(id)),
                None => None,
            }
        },
        Some(_) => None,
    };
    proof {
        assert forall|m: ChatMessageV| #[trigger] message_json(m) == v@ implies decoded_message(v@)
            == Some((Some(m.id), m.said())) by {
            identity_is_written(m);
            message_reads_back(m);
        }
    }
    match (
        id,
        get_text_part(v, "role", 1, 5),
        read_opt_text(get_part(v, "content", 2, 5)),
        read_opt_text(get_part(v, "tool_call_id", 3, 5)),
        read_opt_calls(get_part(v, "tool_calls", 4, 5)),
    ) {
        (Some(id), Some(role), Some(content), Some(tool_call_id), Some(tool_calls)) => {
            let id = match id {
                Some(id) => id,
                None => new_message_id(),
            };
            Some(ChatMessage { id, role: role.to_owned(), content, tool_call_id, tool_calls })
        },
        _ => None,
    }
}

proof fn identity_is_written(m: ChatMessageV)
    ensures
        part(message_json(m), "id"@, 0, 5) == Some(JsonV::Str(uuid_text(m.id))),
{
    reveal_strlit("id");
    reveal_strlit("role");
    reveal_strlit("content");
    reveal_strlit("tool_call_id");
    reveal_strlit("tool_calls");
    assert("id"@.len() == 2 && "role"@.len() == 4 && "content"@.len() == 7
        && "tool_call_id"@.len() == 12 && "tool_calls"@.len() == 10);
    let list = message_fields(m);
    assert(message_json(m) == json::object(list));
    fields_read_back(list, 0);
}

/// Whether messages are what a list of values stands for.
pub open spec fn reads_as(list: Seq<JsonV>, m: Seq<ChatMessageV>) -> bool {
    &&& m.len() == list.len()
    &&& forall|i: int|
        0 <= i < list.len() ==> (decoded_message(#[trigger] list[i]) matches Some(x) && m[i].said()
            == x.1 && (x.0 is Some ==> Some(m[i].id) == x.0))
}

/// Whether every value of a list stands for a message.
pub open spec fn all_messages(list: Seq<JsonV>) -> bool {
    forall|i: int| 0 <= i < list.len() ==> decoded_message(#[trigger] list[i]) is Some
}

/// Reads a list of messages; one that is no message spoils the list.
pub fn decode_messages(v: &Json) -> (r: Option<Vec<ChatMessage>>)
    ensures
        match (r, v@) {
            (Some(m), JsonV::Array(list)) => reads_as(list, op::messages(m@)),
            (None, JsonV::Array(list)) => !all_messages(list),
            (None, _) => true,
            (Some(_), _) => false,
        },
{
    broadcast use json::group_json;

    match v {
        Json::Array(list) => {
            let ghost all = json::values(list@);
            let mut out: Vec<ChatMessage> = Vec::new();
            let mut i: usize = 0;
            while i < list.len()
                invariant
                    i <= list@.len(),
                    all == json::values(list@),
                    v@ == JsonV::Array(all),
                    out@.len() == i,
                    forall|j: int|
                        0 <= j < i ==> (decoded_message(#[trigger] all[j]) matches Some(x)
                            && out@[j]@.said() == x.1 && (x.0 is Some ==> Some(out@[j]@.id) == x.0)),
                decreases list@.len() - i,
            {
                assert(all[i as int] == list@[i as int]@);
                match decode_message(&list[i]) {
                    Some(m) => {
                        out.push(m);
                    },
                    None => {
                        return None;
                    },
                }
                i += 1;
            }
            assert(op::messages(out@).len() == out@.len());
            Some(out)
        },
        _ => None,
    }
}

} // verus!
