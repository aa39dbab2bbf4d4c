//! What is sent to a provider, what is read back, and when a request is sent
//! again.
use crate::codec;
use crate::json;
use crate::json::JsonV;
use crate::json_laws;
use crate::naming;
use crate::naming::mark;
use crate::op;
use crate::op::{ChatMessageV, FinishReasonV, ToolCallV};
use crate::provider;
use crate::provider::{ApiToolCallV, ChoiceV, ProviderErrorV, RetryState, RetryStep, ToolSpecV, Usage};
use crate::text;
use vstd::prelude::*;

verus! {

/// The names on the wire tell themselves apart.
proof fn wire_names()
    ensures
        mark("function"@) == (8nat, 'f', 'n', 't'),
        mark("arguments"@) == (9nat, 'a', 's', 'm'),
        mark("name"@) == (4nat, 'n', 'e', 'm'),
        mark("id"@) == (2nat, 'i', 'd', 'd'),
        mark("type"@) == (4nat, 't', 'e', 'p'),
        mark("content"@) == (7nat, 'c', 't', 't'),
        mark("role"@) == (4nat, 'r', 'e', 'l'),
        mark("tool_call_id"@) == (12nat, 't', 'd', 'a'),
        mark("tool_calls"@) == (10nat, 't', 's', 'c'),
        mark("messages"@) == (8nat, 'm', 's', 'a'),
        mark("model"@) == (5nat, 'm', 'l', 'd'),
        mark("tool_choice"@) == (11nat, 't', 'e', 'c'),
        mark("tools"@) == (5nat, 't', 's', 'o'),
        mark("description"@) == (11nat, 'd', 'n', 'i'),
        mark("parameters"@) == (10nat, 'p', 's', 'e'),
{
    reveal_strlit("function");
    reveal_strlit("arguments");
    reveal_strlit("name");
    reveal_strlit("id");
    reveal_strlit("type");
    reveal_strlit("content");
    reveal_strlit("role");
    reveal_strlit("tool_call_id");
    reveal_strlit("tool_calls");
    reveal_strlit("messages");
    reveal_strlit("model");
    reveal_strlit("tool_choice");
    reveal_strlit("tools");
    reveal_strlit("description");
    reveal_strlit("parameters");
}

proof fn reads3(k1: Seq<char>, v1: JsonV, k2: Seq<char>, v2: JsonV, k3: Seq<char>, v3: JsonV)
    requires
        k1 != k2,
        k1 != k3,
        k2 != k3,
    ensures
        ({
            let o = JsonV::Object(seq![(k1, v1), (k2, v2), (k3, v3)]);
            &&& o.field(k1) == Some(v1)
            &&& o.field(k2) == Some(v2)
            &&& o.field(k3) == Some(v3)
        }),
{
    broadcast use naming::group_naming;

    let f = Seq::empty().push((k1, v1)).push((k2, v2)).push((k3, v3));
    assert(seq![(k1, v1), (k2, v2), (k3, v3)] =~= f);
}

proof fn reads2(k1: Seq<char>, v1: JsonV, k2: Seq<char>, v2: JsonV)
    requires
        k1 != k2,
    ensures
        ({
            let o = JsonV::Object(seq![(k1, v1), (k2, v2)]);
            &&& o.field(k1) == Some(v1)
            &&& o.field(k2) == Some(v2)
        }),
{
    broadcast use naming::group_naming;

    let f = Seq::empty().push((k1, v1)).push((k2, v2));
    assert(seq![(k1, v1), (k2, v2)] =~= f);
}

/// Reading a completion keeps every call in its place, with its own id and its
/// own name; arguments that stand for a value become that value, and others are
/// kept as they are.
pub proof fn calls_are_read_in_place(
    choices: Seq<ChoiceV>,
    usage: Option<Usage>,
    raw: Seq<char>,
    calls: Seq<ApiToolCallV>,
)
    requires
        choices.len() > 0,
        choices[0].tool_calls == Some(calls),
        provider::completed(choices, usage, raw) is Ok,
    ensures
        ({
            let r = provider::completed(choices, usage, raw)->Ok_0;
            &&& r.tool_calls.len() == calls.len()
            &&& forall|i: int|
                0 <= i < calls.len() ==> {
                    let c = #[trigger] r.tool_calls[i];
                    &&& c.id == calls[i].id
                    &&& c.name == calls[i].name
                    &&& match json::parsed(calls[i].arguments) {
                        Ok(v) => c.arguments == v,
                        Err(_) => c.arguments.field("raw"@) == Some(
                            JsonV::Str(calls[i].arguments),
                        ),
                    }
                }
        }),
{
    let r = provider::completed(choices, usage, raw)->Ok_0;
    assert forall|i: int| 0 <= i < calls.len() && json::parsed(calls[i].arguments) is Err implies (
    #[trigger] r.tool_calls[i]).arguments.field("raw"@) == Some(
        JsonV::Str(calls[i].arguments),
    ) by {
        let s = JsonV::Str(calls[i].arguments);
        json::put_then_lookup(Seq::empty(), "raw"@, s);
        assert(seq![("raw"@, s)].drop_last() =~= Seq::empty());
        reveal_with_fuel(json::put_all, 2);
    }
}

/// A call on the wire shows its id, its name and its arguments under their names,
/// and is read back as the same call, wherever the text of the arguments is read
/// back as the arguments.
pub proof fn wire_calls_are_read_back(c: ToolCallV)
    requires
        json::parsed(json::json_text(c.arguments)) == Ok::<JsonV, Seq<char>>(c.arguments),
    ensures
        ({
            let w = provider::call_wire(c);
            let f = w.field("function"@)->0;
            &&& w.field("function"@) is Some
            &&& w.field("id"@) == Some(JsonV::Str(c.id))
            &&& w.field("type"@) == Some(JsonV::Str("function"@))
            &&& f.field("name"@) == Some(JsonV::Str(c.name))
            &&& f.field("arguments"@) == Some(JsonV::Str(json::json_text(c.arguments)))
            &&& codec::decoded_call(w) == Some(c)
            &&& provider::neutral_calls(
                Some(
                    seq![
                        ApiToolCallV {
                            id: w.text_field("id"@)->0,
                            name: f.text_field("name"@)->0,
                            arguments: f.text_field("arguments"@)->0,
                        },
                    ],
                ),
            ) =~= seq![c]
        }),
{
    wire_names();
    let a = JsonV::Str(json::json_text(c.arguments));
    let f = JsonV::Object(seq![("arguments"@, a), ("name"@, JsonV::Str(c.name))]);
    reads2("arguments"@, a, "name"@, JsonV::Str(c.name));
    reads3("function"@, f, "id"@, JsonV::Str(c.id), "type"@, JsonV::Str("function"@));
    let w = provider::call_wire(c);
    assert(w.field("name"@) is None) by {
        broadcast use naming::group_naming;

        let g = Seq::empty().push(("function"@, f)).push(("id"@, JsonV::Str(c.id))).push(
            ("type"@, JsonV::Str("function"@)),
        );
        assert(w->Object_0 =~= g);
    }
}

/// The tokens of a response are those that the provider tells: what it was given
/// counts as input, what it made as output; where no total is told it is their
/// sum, as far as that fits.
pub proof fn tokens_are_told_apart(choices: Seq<ChoiceV>, usage: Option<Usage>, raw: Seq<char>)
    requires
        provider::completed(choices, usage, raw) is Ok,
    ensures
        ({
            let r = provider::completed(choices, usage, raw)->Ok_0;
            &&& usage matches Some(u) ==> {
                &&& u.prompt_tokens matches Some(n) ==> r.input_tokens == n
                &&& u.completion_tokens matches Some(n) ==> r.output_tokens == n
                &&& u.prompt_tokens is None ==> r.input_tokens == 0
                &&& u.completion_tokens is None ==> r.output_tokens == 0
                &&& u.total_tokens matches Some(n) ==> r.total_tokens == n
                &&& u.total_tokens is None && r.input_tokens + r.output_tokens <= u32::MAX
                    ==> r.total_tokens == r.input_tokens + r.output_tokens
                &&& u.total_tokens is None && r.input_tokens + r.output_tokens > u32::MAX
                    ==> r.total_tokens == u32::MAX
            }
            &&& usage is None ==> r.input_tokens == 0 && r.output_tokens == 0 && r.total_tokens == 0
        }),
{
}

/// A response says what the first choice says and ended as that one did; the
/// other choices do not matter.
pub proof fn the_first_choice_answers(
    choices: Seq<ChoiceV>,
    others: Seq<ChoiceV>,
    usage: Option<Usage>,
    raw: Seq<char>,
)
    requires
        choices.len() > 0,
        others.len() > 0,
        others[0] == choices[0],
    ensures
        provider::completed(choices, usage, raw) == provider::completed(others, usage, raw),
        provider::completed(choices, usage, raw) matches Ok(r) ==> {
            &&& choices[0].content matches Some(s) ==> r.content == s
            &&& choices[0].content is None ==> r.content.len() == 0
            &&& choices[0].tool_calls is None ==> r.tool_calls.len() == 0
            &&& choices[0].finish_reason is None ==> r.finish_reason is None
            &&& choices[0].finish_reason matches Some(s) ==> r.finish_reason == Some(
                op::finish_reason(s),
            )
            &&& r.metadata.len() == 0
        },
{
}

/// An answer that says nothing and calls nothing is none, unless the model meant
/// to stop; every other answer is one.  Without a choice there is no answer.
pub proof fn empty_answers_are_none(choices: Seq<ChoiceV>, usage: Option<Usage>, raw: Seq<char>)
    ensures
        choices.len() == 0 ==> provider::completed(choices, usage, raw) is Err,
        choices.len() > 0 ==> {
            let c = choices[0];
            let silent = c.content is None || text::blank(c.content->0);
            let idle = c.tool_calls is None || c.tool_calls->0.len() == 0;
            let stopped = c.finish_reason == Some("stop"@) || c.finish_reason == Some(
                "end_turn"@,
            );
            &&& provider::completed(choices, usage, raw) is Err <==> silent && idle && !stopped
            &&& provider::completed(choices, usage, raw) matches Err(e) ==> e
                == (ProviderErrorV::EmptyCompletion { raw })
        },
{
    reveal_strlit("stop");
    reveal_strlit("end_turn");
    if choices.len() > 0 {
        assert(text::blank(Seq::empty()));
        let c = choices[0];
        if c.tool_calls is Some {
            assert(provider::neutral_calls(c.tool_calls).len() == (c.tool_calls->0).len());
        }
    }
}

/// The names of the ways to end, in the words of either kind of provider.
pub proof fn ends_have_two_names(name: Seq<char>)
    ensures
        op::finish_reason("stop"@) == FinishReasonV::Stop,
        op::finish_reason("end_turn"@) == FinishReasonV::Stop,
        op::finish_reason("tool_calls"@) == FinishReasonV::ToolCalls,
        op::finish_reason("tool_use"@) == FinishReasonV::ToolCalls,
        op::finish_reason("length"@) == FinishReasonV::Length,
        op::finish_reason("max_tokens"@) == FinishReasonV::Length,
        op::finish_reason("content_filter"@) == FinishReasonV::ContentFilter,
        op::finish_reason(name) matches FinishReasonV::Other(s) ==> s == name,
        op::finish_reason(name) == FinishReasonV::Stop ==> name == "stop"@ || name == "end_turn"@,
        op::finish_reason(name) == FinishReasonV::ToolCalls ==> name == "tool_calls"@ || name
            == "tool_use"@,
        op::finish_reason(name) == FinishReasonV::Length ==> name == "length"@ || name
            == "max_tokens"@,
        op::finish_reason(name) == FinishReasonV::ContentFilter ==> name == "content_filter"@,
{
    reveal_strlit("stop");
    reveal_strlit("end_turn");
    reveal_strlit("tool_calls");
    reveal_strlit("tool_use");
    reveal_strlit("length");
    reveal_strlit("max_tokens");
    reveal_strlit("content_filter");
    assert("stop"@.len() == 4 && "end_turn"@.len() == 8 && "tool_calls"@.len() == 10);
    assert("tool_use"@.len() == 8 && "length"@.len() == 6 && "max_tokens"@.len() == 10);
    assert("content_filter"@.len() == 14);
    assert("end_turn"@[0] == 'e' && "tool_use"@[0] == 't');
    assert("tool_calls"@[0] == 't' && "max_tokens"@[0] == 'm');
}

/// A request names the model, carries the messages in their order and the tools
/// in theirs, and leaves the choice of tools to the model.
pub proof fn requests_hold_their_parts(
    model: Seq<char>,
    tools: Seq<ToolSpecV>,
    messages: Seq<ChatMessageV>,
    nudge: bool,
)
    ensures
        ({
            let b = provider::chat_body(model, tools, messages, nudge);
            &&& b.field("model"@) == Some(JsonV::Str(model))
            &&& b.field("tool_choice"@) == Some(JsonV::Str("auto"@))
            &&& b.field("tools"@) matches Some(JsonV::Array(t))
            &&& t.len() == tools.len()
            &&& forall|i: int|
                0 <= i < t.len() ==> {
                    let f = (#[trigger] t[i]).field("function"@)->0;
                    &&& t[i].field("function"@) is Some
                    &&& t[i].field("type"@) == Some(JsonV::Str(tools[i].kind))
                    &&& f.field("name"@) == Some(JsonV::Str(tools[i].function.name))
                    &&& f.field("description"@) == Some(JsonV::Str(tools[i].function.description))
                    &&& f.field("parameters"@) == Some(tools[i].function.parameters)
                }
            &&& b.field("messages"@) matches Some(JsonV::Array(m))
            &&& m.len() == messages.len() + if nudge {
                1int
            } else {
                0
            }
            &&& forall|i: int|
                0 <= i < messages.len() ==> {
                    &&& (#[trigger] m[i]).field("role"@) == Some(JsonV::Str(messages[i].role))
                    &&& m[i].field("content"@) == Some(
                        match messages[i].content {
                            Some(s) => JsonV::Str(s),
                            None => JsonV::Null,
                        },
                    )
                    &&& m[i].field("tool_call_id"@) == match messages[i].tool_call_id {
                        Some(s) => Some(JsonV::Str(s)),
                        None => None,
                    }
                    &&& m[i].field("id"@) is None
                    &&& m[i].field("tool_calls"@) is Some <==> messages[i].tool_calls is Some && (
                    messages[i].tool_calls->0).len() > 0
                    &&& m[i].field("tool_calls"@) matches Some(JsonV::Array(c)) ==> c.len() == (
                    messages[i].tool_calls->0).len() && forall|k: int|
                        0 <= k < c.len() ==> #[trigger] c[k] == provider::call_wire(
                            (messages[i].tool_calls->0)[k],
                        )
                }
            &&& nudge ==> m[messages.len() as int].field("role"@) == Some(JsonV::Str("user"@))
        }),
{
    broadcast use naming::group_naming;

    wire_names();
    reveal_strlit("user");
    let b = provider::chat_body(model, tools, messages, nudge);
    let said = provider::sent(messages, nudge);
    let m = Seq::new(said.len(), |i: int| provider::message_wire(said[i]));
    let t = Seq::new(tools.len(), |i: int| provider::tool_wire(tools[i]));
    let g = Seq::empty().push(("messages"@, JsonV::Array(m))).push(("model"@, JsonV::Str(model))).push(
        ("tool_choice"@, JsonV::Str("auto"@)),
    ).push(("tools"@, JsonV::Array(t)));
    assert(b->Object_0 =~= g);
    assert forall|i: int| 0 <= i < t.len() implies {
        let f = (#[trigger] t[i]).field("function"@)->0;
        &&& t[i].field("function"@) is Some
        &&& t[i].field("type"@) == Some(JsonV::Str(tools[i].kind))
        &&& f.field("name"@) == Some(JsonV::Str(tools[i].function.name))
        &&& f.field("description"@) == Some(JsonV::Str(tools[i].function.description))
        &&& f.field("parameters"@) == Some(tools[i].function.parameters)
    } by {
        let x = tools[i];
        let f = JsonV::Object(
            seq![
                ("description"@, JsonV::Str(x.function.description)),
                ("name"@, JsonV::Str(x.function.name)),
                ("parameters"@, x.function.parameters),
            ],
        );
        reads3(
            "description"@,
            JsonV::Str(x.function.description),
            "name"@,
            JsonV::Str(x.function.name),
            "parameters"@,
            x.function.parameters,
        );
        reads2("function"@, f, "type"@, JsonV::Str(x.kind));
    }
    assert forall|i: int| 0 <= i < messages.len() implies (#[trigger] m[i])
        == provider::message_wire(messages[i].said()) by {
        assert(said[i] == messages[i].said());
    }
}

/// A request goes to one place under the address, however many slashes the
/// address ends with.
pub proof fn slashes_do_not_matter(base: Seq<char>)
    ensures
        provider::without_slashes(base.push('/')) == provider::without_slashes(base),
        base.len() == 0 || base.last() != '/' ==> provider::without_slashes(base) == base,
        provider::without_slashes(base).len() > 0 ==> provider::without_slashes(base).last() != '/',
    decreases base.len(),
{
    assert(base.push('/').drop_last() =~= base);
    if base.len() > 0 && base.last() == '/' {
        slashes_do_not_matter(base.drop_last());
    }
}

/// A failure of the line, of the provider itself, a request to slow down and an
/// empty answer are worth another try; a refusal of the request is not, and a
/// context that did not fit will not fit the next time.
pub proof fn only_passing_failures_are_tried_again(
    status: u16,
    s: Seq<char>,
    t: Seq<char>,
    delay: Option<u64>,
)
    ensures
        provider::retryable(ProviderErrorV::Transport { message: s, context: t }),
        provider::retryable(ProviderErrorV::EmptyCompletion { raw: s }),
        !provider::retryable(ProviderErrorV::ContextOverflow { status, text: s }),
        !provider::retryable(ProviderErrorV::Other(s)),
        provider::retryable(
            ProviderErrorV::Http { status: 429, text: s, retry_after: delay },
        ),
        500 <= status < 600 ==> provider::retryable(
            ProviderErrorV::Http { status, text: s, retry_after: delay },
        ),
        status != 429 && !(500 <= status < 600) ==> !provider::retryable(
            ProviderErrorV::Http { status, text: s, retry_after: delay },
        ),
{
}

/// A failed request waits as long as the provider asks, and otherwise twice as
/// long as the time before; the first wait is one second.  What asks for no time
/// does not change the doubling.
pub proof fn waits_double(s: RetryState, e: ProviderErrorV)
    ensures
        provider::untried().attempt == 0,
        provider::untried().delay == 1,
        !provider::untried().nudge,
        provider::after_failure(s, e) matches RetryStep::Again { after, state } ==> {
            &&& state.attempt == s.attempt + 1
            &&& s.delay <= u64::MAX / 2 ==> state.delay == s.delay + s.delay
            &&& state.delay >= s.delay
            &&& (e is Http && e->Http_retry_after is Some) ==> Some(after) == e->Http_retry_after
            &&& !(e is Http && e->Http_retry_after is Some) ==> after == s.delay
            &&& s.nudge ==> state.nudge
            &&& e is EmptyCompletion ==> state.nudge
            &&& !s.nudge && e !is EmptyCompletion ==> !state.nudge
            &&& provider::retryable(e)
        },
        provider::retryable(e) && s.attempt + 1 < provider::MAX_ATTEMPTS ==> provider::after_failure(
            s,
            e,
        ) is Again,
{
}

/// A reply with a status of success is no failure; every other is one, with its
/// status and its text, and only a bad request can be an overflow.
pub proof fn replies_are_sorted_by_status(status: u16, s: Seq<char>, delay: Option<u64>)
    ensures
        200 <= status < 300 <==> provider::refused(status, s, delay) is None,
        provider::refused(status, s, delay) matches Some(ProviderErrorV::ContextOverflow {
            status: n,
            text: t,
        }) ==> n == status && t == s && status == 400,
        provider::refused(status, s, delay) matches Some(ProviderErrorV::Http {
            status: n,
            text: t,
            retry_after,
        }) ==> n == status && t == s && retry_after == delay,
        provider::refused(status, s, delay) matches Some(e) ==> e is Http || e is ContextOverflow,
        status == 400 && provider::speaks_of(s, "context_length_exceeded"@) ==> provider::refused(
            status,
            s,
            delay,
        ) is Some && (provider::refused(status, s, delay)->0) is ContextOverflow,
{
}

proof fn digits_count(n: nat)
    ensures
        text::number(text::decimal(n)) == n,
        provider::all_digits(text::decimal(n)),
    decreases n,
{
    json_laws::decimals_are_digits(n);
    if n >= 10 {
        digits_count(n / 10);
        let d = text::decimal(n);
        assert(d.drop_last() =~= text::decimal(n / 10));
    } else {
        let d = text::decimal(n);
        assert(d.drop_last() =~= Seq::empty());
        assert(text::number(Seq::empty()) == 0);
    }
}

/// A number of seconds is read from its decimal digits, with a plus sign or
/// without; what holds anything else, or too much, is no number of seconds.
pub proof fn seconds_are_decimal(n: u64, s: Seq<char>)
    ensures
        provider::seconds(text::decimal(n as nat)) == Some(n),
        provider::seconds(seq!['+'] + text::decimal(n as nat)) == Some(n),
        s.len() == 0 ==> provider::seconds(s) is None,
        (exists|i: int| 1 <= i < s.len() && !('0' <= #[trigger] s[i] <= '9')) ==> provider::seconds(
            s,
        ) is None,
        s.len() > 0 && s[0] != '+' && !('0' <= s[0] <= '9') ==> provider::seconds(s) is None,
{
    let d = text::decimal(n as nat);
    digits_count(n as nat);
    assert((seq!['+'] + d).skip(1) =~= d);
    assert(d.len() > 0 && '0' <= d[0] <= '9');
    if exists|i: int| 1 <= i < s.len() && !('0' <= #[trigger] s[i] <= '9') {
        let i = choose|i: int| 1 <= i < s.len() && !('0' <= #[trigger] s[i] <= '9');
        if s[0] == '+' {
            assert(s.skip(1)[i - 1] == s[i]);
        }
    }
}

/// The error of a failure names what failed: the context before the cause, the
/// status before the text.
pub proof fn failures_are_told_in_words(status: u16, s: Seq<char>, t: Seq<char>)
    ensures
        t.is_prefix_of(
            provider::provider_error_text(ProviderErrorV::Transport { message: s, context: t }),
        ),
        s.is_suffix_of(
            provider::provider_error_text(ProviderErrorV::Transport { message: s, context: t }),
        ),
        ("provider returned "@ + provider::shown_status(status)).is_prefix_of(
            provider::provider_error_text(
                ProviderErrorV::Http { status, text: s, retry_after: None },
            ),
        ),
        s.is_suffix_of(
            provider::provider_error_text(
                ProviderErrorV::Http { status, text: s, retry_after: None },
            ),
        ),
        s.is_suffix_of(provider::provider_error_text(ProviderErrorV::EmptyCompletion { raw: s })),
        s.is_suffix_of(
            provider::provider_error_text(ProviderErrorV::ContextOverflow { status, text: s }),
        ),
        provider::provider_error_text(ProviderErrorV::Other(s)) == s,
{
    let a = provider::provider_error_text(ProviderErrorV::Transport { message: s, context: t });
    assert(a.subrange(0, t.len() as int) =~= t);
    assert(a.subrange(a.len() - s.len(), a.len() as int) =~= s);
    let b = provider::provider_error_text(
        ProviderErrorV::Http { status, text: s, retry_after: None },
    );
    let h = "provider returned "@ + provider::shown_status(status);
    assert(b.subrange(0, h.len() as int) =~= h);
    assert(b.subrange(b.len() - s.len(), b.len() as int) =~= s);
    let c = provider::provider_error_text(ProviderErrorV::EmptyCompletion { raw: s });
    assert(c.subrange(c.len() - s.len(), c.len() as int) =~= s);
    let d = provider::provider_error_text(ProviderErrorV::ContextOverflow { status, text: s });
    assert(d.subrange(d.len() - s.len(), d.len() as int) =~= s);
}

/// What speaks of an overflow in any of the known words is one, whatever the
/// case of its letters.
pub proof fn overflows_have_known_words(s: Seq<char>)
    ensures
        provider::speaks_of(s, "context_length_exceeded"@) ==> provider::says_overflow(s),
        provider::speaks_of(s, "prompt is too long"@) ==> provider::says_overflow(s),
        provider::speaks_of(s, "context window"@) && provider::speaks_of(s, "exceed"@)
            ==> provider::says_overflow(s),
        provider::speaks_of(s, "context window"@) && provider::speaks_of(s, "too long"@)
            ==> provider::says_overflow(s),
        provider::speaks_of(s, "context"@) && provider::speaks_of(s, "length"@)
            && provider::speaks_of(s, "exceed"@) ==> provider::says_overflow(s),
        provider::speaks_of(s, "context"@) && provider::speaks_of(s, "length"@)
            && provider::speaks_of(s, "maximum"@) ==> provider::says_overflow(s),
        provider::says_overflow(s) ==> provider::speaks_of(s, "context_length_exceeded"@)
            || provider::speaks_of(s, "prompt is too long"@) || provider::speaks_of(
            s,
            "context window"@,
        ) || provider::speaks_of(s, "context"@) && provider::speaks_of(s, "length"@),
        provider::says_overflow(s) == provider::says_overflow(text::ascii_lower_text(s)),
{
    assert(text::ascii_lower_text(text::ascii_lower_text(s)) =~= text::ascii_lower_text(s));
}

} // verus!
