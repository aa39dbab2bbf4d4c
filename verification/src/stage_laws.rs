//! How the stages of an agent loop follow one another.
use crate::json;
use crate::json::Json;
use crate::op;
use crate::op::{ChatMessageV, FinishReasonV, Prompt, Response, Said, Stage, ToolCall, ToolCallV};
use vstd::prelude::*;

verus! {

/// The history that a stage goes on with, where it has one.
pub open spec fn history_at(s: Stage) -> Option<Seq<ChatMessageV>> {
    match s {
        Stage::Eval { history, .. } => Some(op::messages(history@)),
        Stage::WriteHistory { history, .. } => Some(op::messages(history@)),
        _ => None,
    }
}

/// How many turns a stage leaves.
pub open spec fn turns_at(s: Stage) -> usize {
    match s {
        Stage::Infer { turns, .. } => turns,
        Stage::ReadHistory { turns, .. } => turns,
        Stage::Eval { turns, .. } => turns,
        Stage::WriteHistory { turns, .. } => turns,
        Stage::Done { .. } => 0,
    }
}

/// A loop ends with the answer of the model where no turn is left, or where the
/// model stops without calls and nothing is open.  Calls are dispatched; anything
/// else is answered by a nudge to go on, behind what was said.
pub proof fn answers_end_a_loop_or_go_on(
    prompt: Prompt,
    response: Response,
    turns: usize,
    r: Stage,
)
    requires
        call_ensures(op::after_response, (prompt, response, turns), r),
    ensures
        turns == 0 ==> (r matches Stage::Done { response: out } && out@ == response@),
        response@.finish_reason == Some(FinishReasonV::Stop) && response@.tool_calls.len() == 0
            && op::pending(op::messages(prompt@)).len() == 0 ==> (r matches Stage::Done {
            response: out,
        } && out@ == response@),
        turns > 0 && response@.tool_calls.len() > 0 ==> (r matches Stage::ReadHistory {
            prompt: p,
            response: out,
            turns: t,
        } && op::messages(p@) == op::messages(prompt@) && out@ == response@ && t == turns),
        turns > 0 && response@.tool_calls.len() == 0 && response@.finish_reason != Some(
            FinishReasonV::Stop,
        ) ==> r is WriteHistory,
        turns > 0 && response@.tool_calls.len() == 0 && op::pending(
            op::messages(prompt@),
        ).len() > 0 ==> r is WriteHistory,
        r matches Stage::WriteHistory { history, turns: t } ==> {
            let now = op::messages(history@);
            let before = op::messages(prompt@);
            &&& t == turns
            &&& before.is_prefix_of(now)
            &&& now.last().role == "user"@
            &&& now.last().content == Some(op::CONTINUE_NUDGE@)
            &&& response@.content.len() == 0 ==> now.len() == before.len() + 1
            &&& response@.content.len() > 0 ==> now.len() == before.len() + 2
                && now[before.len() as int].role == "assistant"@ && now[before.len() as int].content
                == Some(response@.content)
        },
{
    if let Stage::WriteHistory { history, turns: t } = r {
        let now = op::messages(history@);
        let before = op::messages(prompt@);
        let added = op::nudged(response@);
        assert(now.subrange(0, before.len() as int) =~= now.take(before.len() as int));
        let rest = now.skip(before.len() as int);
        assert(op::sayings(rest) == added);
        assert(rest.len() == added.len());
        assert(rest[rest.len() - 1] == now.last());
        assert(op::sayings(rest)[rest.len() - 1] == now.last().said());
        if response@.content.len() > 0 {
            assert(rest[0] == now[before.len() as int]);
            assert(op::sayings(rest)[0] == rest[0].said());
        }
    }
}

/// Each turn takes one from those that are left, and goes on with what was stored.
pub proof fn turns_are_counted_down(history: Prompt, turns: usize, r: Stage)
    requires
        turns > 0,
        call_ensures(op::after_write, (history, turns), r),
    ensures
        r matches Stage::Infer { prompt, turns: t } && op::messages(prompt@) == op::messages(
            history@,
        ) && t + 1 == turns,
{
}

/// Before calls are carried out, the answer that makes them joins the stored history,
/// or what the model saw where nothing is stored, and no turn is lost.
pub proof fn calls_join_the_history(
    prompt: Prompt,
    response: Response,
    turns: usize,
    stored: Option<Prompt>,
    r: Stage,
)
    requires
        call_ensures(op::after_history, (prompt, response, turns, stored), r),
        response@.tool_calls.len() > 0,
    ensures
        ({
            let before = match stored {
                Some(h) => op::messages(h@),
                None => op::messages(prompt@),
            };
            &&& turns_at(r) == turns
            &&& history_at(r) matches Some(now) && before.is_prefix_of(now) && now.len()
                > before.len() && now[before.len() as int].role == "assistant"@
                && now[before.len() as int].tool_calls == Some(response@.tool_calls) && (
            response@.content.len() > 0 ==> now[before.len() as int].content == Some(
                response@.content,
            )) && (response@.content.len() == 0 ==> now[before.len() as int].content is None)
        }),
{
    let base = op::stored_or(stored, prompt);
    let said = op::dispatched(response@);
    let start = choose|start: Seq<ChatMessageV>| #[trigger]
        op::extends(start, base, seq![said]) && op::dispatches(
            r,
            start,
            response@.tool_calls,
            0,
            turns,
        );
    grows(r, base, start, said, response@.tool_calls, 0, turns);
}

/// The result of a command answers the call that asked for it, as the next message
/// of the history, and the calls behind it follow.
pub proof fn results_answer_their_call(
    history: Prompt,
    list: Vec<ToolCall>,
    next: usize,
    turns: usize,
    result: &Json,
    r: Stage,
)
    requires
        next < list@.len(),
        call_ensures(op::after_result, (history, list, next, turns, result), r),
    ensures
        ({
            let before = op::messages(history@);
            &&& turns_at(r) == turns
            &&& history_at(r) matches Some(now) && before.is_prefix_of(now) && now.len()
                > before.len() && now[before.len() as int].role == "tool"@
                && now[before.len() as int].tool_call_id == Some(list@[next as int].id@)
                && now[before.len() as int].content == Some(json::json_text(result@))
            &&& r matches Stage::Eval { next: n, calls, .. } ==> n > next && op::calls(calls@)
                == op::calls(list@)
        }),
{
    let base = op::messages(history@);
    let all = op::calls(list@);
    let said = op::tool_said(all[next as int].id, json::json_text(result@));
    let start = choose|start: Seq<ChatMessageV>| #[trigger]
        op::extends(start, base, seq![said]) && op::dispatches(r, start, all, next + 1, turns);
    grows(r, base, start, said, all, next + 1, turns);
    no_step_back(all, next + 1);
}

/// A command runs for the first call behind a place that has one, with the words of
/// that call.
pub proof fn commands_run_for_their_call(
    history: Prompt,
    list: Vec<ToolCall>,
    next: usize,
    turns: usize,
    result: &Json,
    r: Stage,
)
    requires
        next < list@.len(),
        call_ensures(op::after_result, (history, list, next, turns, result), r),
    ensures
        r matches Stage::Eval { next: n, command, .. } ==> n < list@.len() && list@[n as int].name@
            == "shell"@ && list@[n as int].arguments@.text_field("command"@) == Some(command@)
            && forall|k: int| next < k < n ==> op::command_of(#[trigger] op::calls(list@)[k]) is Err,
        r is WriteHistory ==> forall|k: int|
            next < k < list@.len() ==> op::command_of(#[trigger] op::calls(list@)[k]) is Err,
{
    let all = op::calls(list@);
    passed_calls_have_no_command(all, next + 1);
}

proof fn no_step_back(list: Seq<ToolCallV>, from: int)
    ensures
        op::next_command(list, from) >= from,
    decreases list.len() - from,
{
    if 0 <= from < list.len() && op::command_of(list[from]) is Err {
        no_step_back(list, from + 1);
    }
}

proof fn passed_calls_have_no_command(list: Seq<ToolCallV>, from: int)
    requires
        0 <= from,
    ensures
        forall|k: int|
            from <= k < op::next_command(list, from) && k < list.len() ==> op::command_of(
                #[trigger] list[k],
            ) is Err,
    decreases list.len() - from,
{
    if from < list.len() && op::command_of(list[from]) is Err {
        passed_calls_have_no_command(list, from + 1);
    }
}

proof fn grows(
    r: Stage,
    base: Seq<ChatMessageV>,
    start: Seq<ChatMessageV>,
    said: Said,
    list: Seq<ToolCallV>,
    from: int,
    turns: usize,
)
    requires
        op::extends(start, base, seq![said]),
        op::dispatches(r, start, list, from, turns),
    ensures
        turns_at(r) == turns,
        history_at(r) matches Some(now) && base.is_prefix_of(now) && now.len() > base.len()
            && now[base.len() as int].said() == said,
{
    let now = history_at(r)->0;
    assert(now.take(start.len() as int) == start);
    assert(start.take(base.len() as int) == base);
    assert(now.subrange(0, base.len() as int) =~= base) by {
        assert forall|i: int| 0 <= i < base.len() implies now[i] == base[i] by {
            assert(now.take(start.len() as int)[i] == start[i]);
            assert(start.take(base.len() as int)[i] == base[i]);
        }
    }
    let rest = start.skip(base.len() as int);
    assert(op::sayings(rest) == seq![said]);
    assert(op::sayings(rest)[0] == rest[0].said());
    assert(rest[0] == start[base.len() as int]);
    assert(now.take(start.len() as int)[base.len() as int] == start[base.len() as int]);
}

} // verus!
