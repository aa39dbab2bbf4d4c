//! What messages say, what calls ask for, and how a turn goes on.
use crate::codec;
use crate::json;
use crate::json::JsonV;
use crate::naming::mark;
use crate::op;
use crate::op::{ChatMessageV, FinishReasonV, ResponseV, Said, ToolCallV};
use crate::text;
use vstd::prelude::*;

verus! {

/// Each kind of message has its role; only a result names the call that it
/// answers, and only an assistant makes calls.
pub proof fn messages_have_roles(s: Seq<char>, id: Seq<char>, c: Option<Seq<char>>, l: Seq<ToolCallV>)
    ensures
        op::system_said(s).role == "system"@,
        op::user_said(s).role == "user"@,
        op::assistant_said(c, l).role == "assistant"@,
        op::tool_said(id, s).role == "tool"@,
        op::system_said(s).content == Some(s),
        op::user_said(s).content == Some(s),
        op::tool_said(id, s).content == Some(s),
        op::assistant_said(c, l).content == c,
        op::tool_said(id, s).tool_call_id == Some(id),
        op::system_said(s).tool_call_id is None,
        op::user_said(s).tool_call_id is None,
        op::assistant_said(c, l).tool_call_id is None,
        op::system_said(s).tool_calls is None,
        op::user_said(s).tool_calls is None,
        op::tool_said(id, s).tool_calls is None,
        l.len() == 0 ==> op::assistant_said(c, l).tool_calls is None,
        l.len() > 0 ==> op::assistant_said(c, l).tool_calls == Some(l),
{
}

/// Messages are equal where they say the same: a change of role, of content, of
/// the call that is answered or of a call that is made is a difference.
pub proof fn differences_are_noticed(a: Said, b: Said, i: int)
    ensures
        op::same_said(a, b) ==> a.role == b.role && a.content == b.content && a.tool_call_id
            == b.tool_call_id,
        op::same_said(a, b) && a.tool_calls is Some ==> {
            &&& b.tool_calls is Some
            &&& (a.tool_calls->0).len() == (b.tool_calls->0).len()
            &&& 0 <= i < (a.tool_calls->0).len() ==> (a.tool_calls->0)[i].id == (
            b.tool_calls->0)[i].id && (a.tool_calls->0)[i].name == (b.tool_calls->0)[i].name
        },
        op::same_said(a, b) && a.tool_calls is None ==> b.tool_calls is None,
        op::same_said(a, a),
{
    if a.tool_calls is Some {
        let l = a.tool_calls->0;
        assert forall|k: int| 0 <= k < l.len() implies json::same(
            (#[trigger] l[k]).arguments,
            l[k].arguments,
        ) by {
            json::same_reflexive(l[k].arguments);
        }
    }
}

/// A call of the shell with a command that is not blank asks for that command;
/// any other call asks for none, and is told what it lacks.
pub proof fn commands_come_from_the_shell(c: ToolCallV, s: Seq<char>)
    ensures
        c.name == "shell"@ && c.arguments.field("command"@) == Some(JsonV::Str(s)) && !text::blank(
            s,
        ) ==> op::command_of(c) == Ok::<Seq<char>, JsonV>(s),
        op::command_of(c) matches Ok(x) ==> c.name == "shell"@ && c.arguments.field("command"@)
            == Some(JsonV::Str(x)) && !text::blank(x),
        c.name != "shell"@ ==> op::command_of(c) == Err::<Seq<char>, JsonV>(
            op::unknown_tool(c.name),
        ),
        c.name == "shell"@ && op::command_of(c) is Err ==> op::command_of(c)->Err_0
            == op::invalid_shell_arguments(),
{
}

/// The replies to calls that are not carried out say that they failed, and why.
pub proof fn refusals_say_why(name: Seq<char>)
    ensures
        op::unknown_tool(name).field("ok"@) == Some(JsonV::Bool(false)),
        op::unknown_tool(name).field("error"@) == Some(JsonV::Str("unknown_tool"@)),
        op::unknown_tool(name).field("tool"@) == Some(JsonV::Str(name)),
        op::invalid_shell_arguments().field("ok"@) == Some(JsonV::Bool(false)),
        op::invalid_shell_arguments().field("error"@) == Some(JsonV::Str("invalid_arguments"@)),
        op::unexecuted_result().field("ok"@) == Some(JsonV::Bool(false)),
        op::unexecuted_result().field("error"@) == Some(JsonV::Str("turn_budget_exhausted"@)),
{
    reveal_strlit("ok");
    reveal_strlit("error");
    reveal_strlit("tool");
    reveal_strlit("message");
    assert(mark("ok"@).0 == 2 && mark("error"@).0 == 5 && mark("tool"@).0 == 4);
    assert(mark("message"@).0 == 7);
    let no = JsonV::Bool(false);
    let why = JsonV::Str("unknown_tool"@);
    let m = JsonV::Str("unknown tool; available tools: shell"@);
    let f = Seq::empty().push(("ok"@, no)).push(("error"@, why)).push(("tool"@, JsonV::Str(name))).push(
        ("message"@, m),
    );
    assert(op::unknown_tool(name) == json::object(f)) by {
        assert(f =~= seq![
            ("ok"@, no),
            ("error"@, why),
            ("tool"@, JsonV::Str(name)),
            ("message"@, m),
        ]);
    }
    listed_fields_read(f, 0);
    listed_fields_read(f, 1);
    listed_fields_read(f, 2);
    let why = JsonV::Str("invalid_arguments"@);
    let m = JsonV::Str("shell requires non-empty string argument: command"@);
    let f = Seq::empty().push(("ok"@, no)).push(("error"@, why)).push(("message"@, m));
    assert(op::invalid_shell_arguments() == json::object(f)) by {
        assert(f =~= seq![("ok"@, no), ("error"@, why), ("message"@, m)]);
    }
    listed_fields_read(f, 0);
    listed_fields_read(f, 1);
    let why = JsonV::Str("turn_budget_exhausted"@);
    let m = JsonV::Str("tool call was not executed: the turn budget ran out before dispatch"@);
    let f = Seq::empty().push(("ok"@, no)).push(("error"@, why)).push(("message"@, m));
    assert(op::unexecuted_result() == json::object(f)) by {
        assert(f =~= seq![("ok"@, no), ("error"@, why), ("message"@, m)]);
    }
    listed_fields_read(f, 0);
    listed_fields_read(f, 1);
}

/// A field of a list of fields with different names is found in its object.
pub proof fn listed_fields_read(f: json::Fields, i: int)
    requires
        0 <= i < f.len(),
        forall|j: int| i < j < f.len() ==> (#[trigger] f[j]).0 != f[i].0,
    ensures
        json::object(f).field(f[i].0) == Some(f[i].1),
    decreases f.len(),
{
    let less = f.drop_last();
    let before = json::put_all(Seq::empty(), less);
    if i == f.len() - 1 {
        json::put_then_lookup(before, f.last().0, f.last().1);
    } else {
        assert(less[i] == f[i]);
        assert forall|j: int| i < j < less.len() implies (#[trigger] less[j]).0 != less[i].0 by {
            assert(f[j].0 != f[i].0);
        }
        listed_fields_read(less, i);
        assert(f[f.len() - 1].0 != f[i].0);
        json::put_keeps_others(before, f.last().0, f.last().1, f[i].0);
    }
}

/// A field that no list names is not found in its object.
pub proof fn unlisted_fields_are_absent(f: json::Fields, key: Seq<char>)
    requires
        forall|j: int| 0 <= j < f.len() ==> (#[trigger] f[j]).0 != key,
    ensures
        json::object(f).field(key) is None,
    decreases f.len(),
{
    if f.len() > 0 {
        let less = f.drop_last();
        assert forall|j: int| 0 <= j < less.len() implies (#[trigger] less[j]).0 != key by {
            assert(f[j].0 != key);
        }
        unlisted_fields_are_absent(less, key);
        assert(f[f.len() - 1].0 != key);
        json::put_keeps_others(
            json::put_all(Seq::empty(), less),
            f.last().0,
            f.last().1,
            key,
        );
    }
}

/// A loop ends only where the model stopped by itself, calls nothing and leaves
/// no call without a result.
pub proof fn loops_end_with_nothing_open(prompt: Seq<ChatMessageV>, r: ResponseV)
    ensures
        op::may_stop(prompt, r) <==> r.finish_reason == Some(FinishReasonV::Stop)
            && r.tool_calls.len() == 0 && op::pending(prompt).len() == 0,
{
}

/// An unfinished turn goes on with a nudge of the user, after what was said, if
/// anything was.
pub proof fn unfinished_turns_are_nudged(r: ResponseV)
    ensures
        ({
            let n = op::nudged(r);
            &&& n.len() == if r.content.len() == 0 {
                1int
            } else {
                2
            }
            &&& n.last() == op::user_said(op::CONTINUE_NUDGE@)
            &&& r.content.len() > 0 ==> n[0].role == "assistant"@ && n[0].content == Some(r.content)
                && n[0].tool_calls is None
        }),
{
}

/// A turn with calls joins the history as it was said, with all its calls.
pub proof fn turns_join_with_their_calls(r: ResponseV)
    requires
        r.tool_calls.len() > 0,
    ensures
        op::dispatched(r).role == "assistant"@,
        op::dispatched(r).tool_calls == Some(r.tool_calls),
        r.content.len() > 0 ==> op::dispatched(r).content == Some(r.content),
        r.content.len() == 0 ==> op::dispatched(r).content is None,
{
}

/// Calls are carried out in their order: the next command is that of the first
/// call that has one, and every call before it is answered with its refusal,
/// under its own id.
pub proof fn calls_are_taken_in_order(l: Seq<ToolCallV>, from: int)
    requires
        0 <= from <= l.len(),
    ensures
        ({
            let n = op::next_command(l, from);
            let r = op::replies(l, from, n);
            &&& from <= n <= l.len()
            &&& n < l.len() ==> op::command_of(l[n]) is Ok
            &&& forall|i: int| from <= i < n ==> op::command_of(#[trigger] l[i]) is Err
            &&& r.len() == n - from
            &&& forall|i: int|
                0 <= i < r.len() ==> {
                    &&& (#[trigger] r[i]).role == "tool"@
                    &&& r[i].tool_call_id == Some(l[from + i].id)
                    &&& r[i].content == Some(json::json_text(op::command_of(l[from + i])->Err_0))
                }
        }),
{
    next_is_first(l, from);
    replies_in_place(l, from, op::next_command(l, from));
}

proof fn next_is_first(l: Seq<ToolCallV>, from: int)
    requires
        0 <= from <= l.len(),
    ensures
        ({
            let n = op::next_command(l, from);
            &&& from <= n <= l.len()
            &&& n < l.len() ==> op::command_of(l[n]) is Ok
            &&& forall|i: int| from <= i < n ==> op::command_of(#[trigger] l[i]) is Err
        }),
    decreases l.len() - from,
{
    if from < l.len() && op::command_of(l[from]) is Err {
        next_is_first(l, from + 1);
    }
}

proof fn replies_in_place(l: Seq<ToolCallV>, from: int, to: int)
    requires
        0 <= from <= to <= l.len(),
    ensures
        ({
            let r = op::replies(l, from, to);
            &&& r.len() == to - from
            &&& forall|i: int|
                0 <= i < r.len() ==> {
                    &&& (#[trigger] r[i]).role == "tool"@
                    &&& r[i].tool_call_id == Some(l[from + i].id)
                    &&& r[i].content == Some(json::json_text(op::command_of(l[from + i])->Err_0))
                }
        }),
    decreases to - from,
{
    if from < to {
        replies_in_place(l, from, to - 1);
    }
}

/// Calls that the budget did not reach are each answered under their own id.
pub proof fn unreached_calls_are_answered(ids: Seq<Seq<char>>, i: int)
    requires
        0 <= i < ids.len(),
    ensures
        op::closing(ids).len() == ids.len(),
        op::closing(ids)[i].role == "tool"@,
        op::closing(ids)[i].tool_call_id == Some(ids[i]),
        op::closing(ids)[i].content == Some(json::json_text(op::unexecuted_result())),
{
}

/// A message is written under the names of its parts: its identity, its role and
/// its content always, the call that it answers and the calls that it makes
/// where there are any.
pub proof fn messages_are_written_by_name(m: ChatMessageV)
    ensures
        ({
            let v = codec::message_json(m);
            &&& v.field("id"@) == Some(JsonV::Str(codec::uuid_text(m.id)))
            &&& v.field("role"@) == Some(JsonV::Str(m.role))
            &&& v.field("content"@) == Some(
                match m.content {
                    Some(s) => JsonV::Str(s),
                    None => JsonV::Null,
                },
            )
            &&& v.field("tool_call_id"@) == match m.tool_call_id {
                Some(s) => Some(JsonV::Str(s)),
                None => None,
            }
            &&& v.field("tool_calls"@) is Some <==> m.tool_calls is Some
            &&& v.field("tool_calls"@) matches Some(JsonV::Array(l)) ==> l.len() == (
            m.tool_calls->0).len() && forall|i: int|
                0 <= i < l.len() ==> #[trigger] l[i] == codec::call_json((m.tool_calls->0)[i])
        }),
{
    reveal_strlit("id");
    reveal_strlit("role");
    reveal_strlit("content");
    reveal_strlit("tool_call_id");
    reveal_strlit("tool_calls");
    assert(mark("id"@).0 == 2 && mark("role"@).0 == 4 && mark("content"@).0 == 7);
    assert(mark("tool_call_id"@).0 == 12 && mark("tool_calls"@).0 == 10);
    let base = seq![
        ("id"@, JsonV::Str(codec::uuid_text(m.id))),
        ("role"@, JsonV::Str(m.role)),
        ("content"@, codec::nullable(m.content)),
    ];
    let with_id = match m.tool_call_id {
        Some(id) => base.push(("tool_call_id"@, JsonV::Str(id))),
        None => base,
    };
    let f = match m.tool_calls {
        Some(list) => with_id.push(("tool_calls"@, codec::calls_json(list))),
        None => with_id,
    };
    listed_fields_read(f, 0);
    listed_fields_read(f, 1);
    listed_fields_read(f, 2);
    if m.tool_call_id is Some {
        listed_fields_read(f, 3);
    } else {
        unlisted_fields_are_absent(f, "tool_call_id"@);
    }
    if m.tool_calls is Some {
        listed_fields_read(f, f.len() - 1);
    } else {
        unlisted_fields_are_absent(f, "tool_calls"@);
    }
}

/// A call is written under the names of its parts.
pub proof fn calls_are_written_by_name(c: ToolCallV)
    ensures
        codec::call_json(c).field("id"@) == Some(JsonV::Str(c.id)),
        codec::call_json(c).field("name"@) == Some(JsonV::Str(c.name)),
        codec::call_json(c).field("arguments"@) == Some(c.arguments),
{
    reveal_strlit("id");
    reveal_strlit("name");
    reveal_strlit("arguments");
    assert(mark("id"@).0 == 2 && mark("name"@).0 == 4 && mark("arguments"@).0 == 9);
    let f = seq![
        ("id"@, JsonV::Str(c.id)),
        ("name"@, JsonV::Str(c.name)),
        ("arguments"@, c.arguments),
    ];
    listed_fields_read(f, 0);
    listed_fields_read(f, 1);
    listed_fields_read(f, 2);
}

/// A way to end is written under its own name and known again by it.
pub proof fn ends_are_written_by_name(r: FinishReasonV)
    ensures
        codec::reason_json(FinishReasonV::Stop) == JsonV::Str("stop"@),
        codec::reason_json(FinishReasonV::ToolCalls) == JsonV::Str("tool_calls"@),
        codec::reason_json(FinishReasonV::Length) == JsonV::Str("length"@),
        codec::reason_json(FinishReasonV::ContentFilter) == JsonV::Str("content_filter"@),
        r matches FinishReasonV::Other(s) ==> codec::reason_json(r).field("other"@) == Some(
            JsonV::Str(s),
        ),
        codec::reason_json(r) matches JsonV::Str(s) ==> op::finish_reason(s) == r,
{
    crate::provider_laws::ends_have_two_names(Seq::empty());
    if let FinishReasonV::Other(s) = r {
        listed_fields_read(seq![("other"@, JsonV::Str(s))], 0);
    }
}

/// A message is read by the names of its parts.
pub proof fn messages_are_read_by_name(v: JsonV)
    requires
        v is Object,
    ensures
        codec::decoded_message(v) matches Some((id, m)) ==> {
            &&& v.field("role"@) == Some(JsonV::Str(m.role))
            &&& m.content matches Some(s) ==> v.field("content"@) == Some(JsonV::Str(s))
            &&& m.content is None ==> v.field("content"@) is None || v.field("content"@) == Some(
                JsonV::Null,
            )
            &&& m.tool_call_id matches Some(s) ==> v.field("tool_call_id"@) == Some(JsonV::Str(s))
            &&& m.tool_call_id is None ==> v.field("tool_call_id"@) is None || v.field(
                "tool_call_id"@,
            ) == Some(JsonV::Null)
            &&& m.tool_calls is None ==> v.field("tool_calls"@) is None || v.field("tool_calls"@)
                == Some(JsonV::Null)
            &&& m.tool_calls matches Some(l) ==> (v.field("tool_calls"@) matches Some(
                JsonV::Array(a),
            ) && a.len() == l.len() && forall|i: int|
                0 <= i < l.len() ==> codec::decoded_call(#[trigger] a[i]) == Some(l[i]))
            &&& v.field("id"@) is None <==> id is None
            &&& v.field("id"@) matches Some(JsonV::Str(s)) ==> id == codec::uuid_of(s)
        },
        v.field("role"@) is None ==> codec::decoded_message(v) is None,
{
    if let Some(JsonV::Array(a)) = v.field("tool_calls"@) {
        calls_in_place(a, a.len());
    }
}

proof fn calls_in_place(a: Seq<JsonV>, n: nat)
    requires
        n <= a.len(),
    ensures
        codec::decoded_calls(a, n) matches Some(l) ==> l.len() == n && forall|i: int|
            0 <= i < n ==> codec::decoded_call(#[trigger] a[i]) == Some(l[i]),
    decreases n,
{
    if n > 0 {
        calls_in_place(a, (n - 1) as nat);
        if codec::decoded_calls(a, n) is Some {
            let l = codec::decoded_calls(a, n)->0;
            let k = codec::decoded_calls(a, (n - 1) as nat)->0;
            assert forall|i: int| 0 <= i < n implies codec::decoded_call(#[trigger] a[i]) == Some(
                l[i],
            ) by {
                if i < n - 1 {
                    assert(l[i] == k[i]);
                }
            }
        }
    }
}

/// A call is read by the names of its parts, in either of its shapes.
pub proof fn calls_are_read_by_name(v: JsonV, f: JsonV)
    requires
        v is Object,
        f is Object,
    ensures
        v.field("arguments"@) is Some && v.field("id"@) is Some && (v.field("id"@)->0) is Str
            && v.field("name"@) is Some && (v.field("name"@)->0) is Str ==> (codec::decoded_call(v)
            matches Some(c) && v.field("id"@) == Some(JsonV::Str(c.id)) && v.field("name"@) == Some(
            JsonV::Str(c.name),
        ) && v.field("arguments"@) == Some(c.arguments)),
        v.field("name"@) is None && v.field("function"@) == Some(f) ==> (codec::decoded_call(v)
            matches Some(c) ==> v.field("id"@) == Some(JsonV::Str(c.id)) && f.field("name"@)
            == Some(JsonV::Str(c.name))),
{
}

/// Messages are written in their order, and so are the calls of a message.
pub proof fn messages_are_written_in_order(list: Seq<ChatMessageV>, calls: Seq<ToolCallV>)
    ensures
        codec::messages_json(list) matches JsonV::Array(l) && l.len() == list.len() && forall|i: int|
            0 <= i < l.len() ==> #[trigger] l[i] == codec::message_json(list[i]),
        codec::calls_json(calls) matches JsonV::Array(l) && l.len() == calls.len() && forall|i: int|
            0 <= i < l.len() ==> #[trigger] l[i] == codec::call_json(calls[i]),
{
}

/// What a response may have besides is written under its name where it has it, and
/// left out where it has not.
pub proof fn responses_leave_out_what_they_lack(r: ResponseV)
    ensures
        ({
            let v = codec::response_json(r);
            &&& r.finish_reason matches Some(x) ==> v.field("finish_reason"@) == Some(
                codec::reason_json(x),
            )
            &&& r.finish_reason is None ==> v.field("finish_reason"@) is None
            &&& r.cached_input_tokens matches Some(n) ==> v.field("cached_input_tokens"@) == Some(
                JsonV::Int(n as int),
            )
            &&& r.cached_input_tokens is None ==> v.field("cached_input_tokens"@) is None
            &&& r.cost_micro_usd matches Some(n) ==> v.field("cost_micro_usd"@) == Some(
                JsonV::Int(n as int),
            )
            &&& r.cost_micro_usd is None ==> v.field("cost_micro_usd"@) is None
            &&& r.pricing matches Some(p) ==> v.field("pricing"@) == Some(codec::pricing_json(p))
            &&& r.pricing is None ==> v.field("pricing"@) is None
            &&& r.metadata.len() > 0 ==> v.field("metadata"@) == Some(JsonV::Object(r.metadata))
            &&& r.metadata.len() == 0 ==> v.field("metadata"@) is None
        }),
{
    codec::responses_hold_their_parts(r);
}

} // verus!
