//! What becomes of an answer that is held to a contract: when it stands, when it
//! is asked for again, and with which words.
use crate::contract_laws;
use crate::ir_agent;
use crate::ir_agent::{LoopRunV, LoopShapeV, LoopStepV, VerdictV};
use crate::json;
use crate::json::{Fields, JsonV};
use crate::machine::MachineV;
use crate::naming;
use crate::naming::mark;
use crate::output_contract;
use crate::output_contract::{OutputContract, OutputContractFailureV};
use crate::replay::IrReplayTrace;
use crate::text;
use vstd::prelude::*;

verus! {

/// An answer without errors stands.  One with errors is asked for again as long as
/// fewer outputs failed before it than may be repaired, and is given up after
/// that, with how often was tried, what is wrong and what was said.
pub proof fn answers_are_judged_by_their_errors(
    f: Fields,
    s: Seq<char>,
    errors: Seq<Seq<char>>,
    max_repairs: usize,
    failed: usize,
)
    requires
        json::lookup(f, "content"@) == Some(JsonV::Str(s)),
        json::lookup(f, "metadata"@) is None,
        failed < usize::MAX,
    ensures
        ({
            let v = ir_agent::judged(JsonV::Object(f), errors, max_repairs, failed);
            &&& errors.len() == 0 ==> v is Accept
            &&& errors.len() > 0 && failed < max_repairs ==> (v matches VerdictV::Repair {
                content,
                errors: e,
                ..
            } && content == s && e == errors)
            &&& errors.len() > 0 && failed >= max_repairs ==> (v matches VerdictV::GiveUp {
                value,
                ..
            } && value.field("attempts"@) == Some(JsonV::Int(failed + 1)) && value.field("content"@)
                == Some(JsonV::Str(s)) && value.field("ok"@) == Some(JsonV::Bool(false)))
        }),
{
    contract_laws::failures_show_their_parts(
        OutputContractFailureV { attempts: (failed + 1) as usize, errors, content: s },
    );
}

/// An answer that the turn budget cut off stands as it is, whatever is wrong with
/// it: it is no final answer.
pub proof fn answers_cut_off_stand(
    f: Fields,
    m: Fields,
    errors: Seq<Seq<char>>,
    max_repairs: usize,
    failed: usize,
)
    requires
        json::lookup(f, "metadata"@) == Some(JsonV::Object(m)),
        json::lookup(m, "stop_reason"@) == Some(JsonV::Str("turn_budget_exhausted"@)),
    ensures
        ir_agent::judged(JsonV::Object(f), errors, max_repairs, failed) is Accept,
{
}

/// An answer that ended for another reason is held to the contract.
pub proof fn answers_that_ended_are_held(
    f: Fields,
    m: Fields,
    errors: Seq<Seq<char>>,
    max_repairs: usize,
    failed: usize,
)
    requires
        json::lookup(f, "metadata"@) == Some(JsonV::Object(m)),
        json::lookup(m, "stop_reason"@) != Some(JsonV::Str("turn_budget_exhausted"@)),
        errors.len() > 0,
    ensures
        !(ir_agent::judged(JsonV::Object(f), errors, max_repairs, failed) is Accept),
{
}

/// What is recorded of an output that does not fit: which attempt it was, the first
/// errors, and how the output starts.
pub proof fn rejections_show_their_parts(attempt: int, errors: Seq<Seq<char>>, content: Seq<char>)
    ensures
        ({
            let v = ir_agent::rejection(attempt, errors, content);
            &&& v.field("attempt"@) == Some(JsonV::Int(attempt))
            &&& v.field("errors"@) matches Some(JsonV::Array(l)) && l.len() <= 8 && l.len()
                <= errors.len() && (errors.len() <= 8 ==> l.len() == errors.len()) && (
            errors.len() > 8 ==> l.len() == 8) && forall|i: int|
                0 <= i < l.len() ==> #[trigger] l[i] == JsonV::Str(errors[i])
            &&& v.field("preview"@) matches Some(JsonV::Str(p)) && p.is_prefix_of(content)
                && p.len() <= 256 && (content.len() <= 256 ==> p == content) && (content.len()
                > 256 ==> p.len() == 256)
        }),
{
    reveal_strlit("attempt");
    reveal_strlit("errors");
    reveal_strlit("preview");
    assert(mark("attempt"@) == (7nat, 'a', 't', 'e'));
    assert(mark("errors"@) == (6nat, 'e', 's', 'o'));
    assert(mark("preview"@) == (7nat, 'p', 'w', 'v'));
    broadcast use naming::group_naming;

    let v = ir_agent::rejection(attempt, errors, content);
    let l = crate::ir_hash::texts_json(ir_agent::listed(errors));
    let f = Seq::<(Seq<char>, JsonV)>::empty().push(("attempt"@, JsonV::Int(attempt))).push(
        ("errors"@, l),
    ).push(("preview"@, JsonV::Str(text::prefix(content, 256))));
    assert(v->Object_0 =~= f);
    crate::text_laws::cuts_keep_the_start(content, 256);
}

/// The model is shown its answer as its own and then told what is wrong with it: at
/// the end of the history stand the answer, where there was one, and the request,
/// and what was there before stays.
pub proof fn requests_follow_the_answer(m: Seq<JsonV>, content: Seq<char>, errors: Seq<Seq<char>>)
    ensures
        ir_agent::mended(JsonV::Array(m), content, errors) matches JsonV::Array(l) && l.last().field(
            "role"@,
        ) == Some(JsonV::Str("user"@)) && l.last().field("content"@) == Some(
            JsonV::Str(ir_agent::repair_text(errors)),
        ) && m.is_prefix_of(l) && (content.len() == 0 ==> l.len() == m.len() + 1) && (content.len()
            > 0 ==> l.len() == m.len() + 2 && l[m.len() as int].field("role"@) == Some(
            JsonV::Str("assistant"@),
        ) && l[m.len() as int].field("content"@) == Some(JsonV::Str(content))),
{
    said_by("user"@, ir_agent::repair_text(errors));
    said_by("assistant"@, content);
    let l = ir_agent::mended(JsonV::Array(m), content, errors)->Array_0;
    assert(l.subrange(0, m.len() as int) =~= m);
}

proof fn said_by(role: Seq<char>, content: Seq<char>)
    ensures
        ir_agent::said(role, content).field("role"@) == Some(JsonV::Str(role)),
        ir_agent::said(role, content).field("content"@) == Some(JsonV::Str(content)),
{
    reveal_strlit("role");
    reveal_strlit("content");
    assert(mark("role"@) == (4nat, 'r', 'e', 'l'));
    assert(mark("content"@) == (7nat, 'c', 't', 't'));
    broadcast use naming::group_naming;

    let f = Seq::<(Seq<char>, JsonV)>::empty().push(("content"@, JsonV::Str(content))).push(
        ("role"@, JsonV::Str(role)),
    );
    assert(ir_agent::said(role, content)->Object_0 =~= f);
}

/// A request names each of the first errors, behind a dash.
pub proof fn requests_name_the_errors(errors: Seq<Seq<char>>, i: int)
    requires
        0 <= i < errors.len(),
        i < 8,
    ensures
        text::occurs_in("- "@ + errors[i], ir_agent::repair_text(errors)),
        "Your final response failed validation against the required output schema:\n"@.is_prefix_of(
            ir_agent::repair_text(errors),
        ),
{
    let shown = ir_agent::bulleted(ir_agent::listed(errors));
    let head =
        "Your final response failed validation against the required output schema:\n"@;
    let tail =
        "\n\nRespond again with ONLY a single JSON value that conforms to the output schema. No prose, no code fences, no explanation."@;
    assert(shown[i] == "- "@ + errors[i]);
    joined_texts_occur(shown, "\n"@, i);
    let body = text::joined(shown, "\n"@);
    assert(ir_agent::repair_text(errors) == head + body + tail);
    let (a, b) = choose|a: Seq<char>, b: Seq<char>| body == #[trigger] (a + shown[i] + b);
    assert(head + body + tail =~= (head + a) + shown[i] + (b + tail));
    crate::text_laws::parts_occur_in_texts(head + a, shown[i], b + tail, body);
    assert((head + body + tail).subrange(0, head.len() as int) =~= head);
}

/// Each of the texts that are joined stands in the whole.
pub proof fn joined_texts_occur(list: Seq<Seq<char>>, between: Seq<char>, i: int)
    requires
        0 <= i < list.len(),
    ensures
        exists|a: Seq<char>, b: Seq<char>|
            text::joined(list, between) == #[trigger] (a + list[i] + b),
    decreases list.len(),
{
    let whole = text::joined(list, between);
    if list.len() == 1 {
        assert(whole =~= Seq::<char>::empty() + list[i] + Seq::<char>::empty());
    } else if i == list.len() - 1 {
        let a = text::joined(list.drop_last(), between) + between;
        assert(whole =~= a + list[i] + Seq::<char>::empty());
    } else {
        let rest = list.drop_last();
        joined_texts_occur(rest, between, i);
        let (a, b) = choose|a: Seq<char>, b: Seq<char>|
            text::joined(rest, between) == #[trigger] (a + rest[i] + b);
        assert(whole =~= a + list[i] + (b + between + list.last()));
    }
}

/// A loop starts at its first block with its history and all of its turns.
pub proof fn loops_start_with_their_history(c: LoopShapeV, history: JsonV, max_turns: usize)
    ensures
        ({
            let m = ir_agent::loop_machine(c, history, max_turns);
            &&& m.block == 0 && m.pc == 0
            &&& json::lookup(m.env, "history"@) == Some(history)
            &&& json::lookup(m.env, "turns_left"@) == Some(JsonV::Int(max_turns as int))
            &&& m.env.len() == 2
            &&& m.visits == Map::<Seq<char>, u64>::empty()
        }),
{
    reveal_strlit("history");
    reveal_strlit("turns_left");
    assert(mark("history"@) == (7nat, 'h', 'y', 't'));
    assert(mark("turns_left"@) == (10nat, 't', 't', '_'));
    broadcast use naming::group_naming;

    let m = ir_agent::loop_machine(c, history, max_turns);
    let f = Seq::<(Seq<char>, JsonV)>::empty().push(("history"@, history)).push(
        ("turns_left"@, JsonV::Int(max_turns as int)),
    );
    assert(m.env =~= f);
}

/// Without a contract the value of a run stands and nothing is recorded of it.
/// With one, a text that fits its schema stands in the same way; one that does not
/// is asked for again by a machine that starts afresh, with all of its turns and
/// with the visits of the one before, as long as repairs are left.
pub proof fn runs_end_or_are_repaired(run: LoopRunV, f: Fields, s: Seq<char>, done: MachineV)
    requires
        json::lookup(f, "content"@) == Some(JsonV::Str(s)),
        json::lookup(f, "metadata"@) is None,
        run.failed < usize::MAX,
    ensures
        ({
            let value = JsonV::Object(f);
            let step = ir_agent::followed(run, value, done);
            let stands = LoopStepV::Done { event: None, value, machine: done };
            match run.contract {
                None => step == stands,
                Some((schema, max_repairs)) => {
                    let errors = output_contract::text_violations(schema, s);
                    &&& errors.len() == 0 ==> step == stands
                    &&& errors.len() > 0 && run.failed < max_repairs ==> (step matches LoopStepV::Again {
                        event,
                        machine,
                    } && event.field("attempt"@) == Some(JsonV::Int(run.failed + 1))
                        && machine.visits == done.visits && machine.block == 0 && machine.pc == 0
                        && json::lookup(machine.env, "turns_left"@) == Some(
                        JsonV::Int(run.max_turns as int),
                    ) && machine.program == ir_agent::loop_program(run.shape)
                        && forall|h: Seq<JsonV>| #[trigger]
                        json::lookup(done.env, "history"@) == Some(JsonV::Array(h))
                            ==> json::lookup(machine.env, "history"@) == Some(
                            ir_agent::mended(JsonV::Array(h), s, errors),
                        ))
                    &&& errors.len() > 0 && run.failed >= max_repairs ==> (step matches LoopStepV::Done {
                        event: Some(event),
                        value: failure,
                        machine,
                    } && event.field("attempt"@) == Some(JsonV::Int(run.failed + 1)) && machine
                        == done && failure.field("content"@) == Some(JsonV::Str(s))
                        && failure.field("attempts"@) == Some(JsonV::Int(run.failed + 1)))
                },
            }
        }),
{
    if let Some((schema, max_repairs)) = run.contract {
        let errors = output_contract::text_violations(schema, s);
        answers_are_judged_by_their_errors(f, s, errors, max_repairs, run.failed);
        rejections_show_their_parts(run.failed + 1, errors, s);
        loops_start_with_their_history(
            run.shape,
            ir_agent::mended(ir_agent::history_of(done), s, errors),
            run.max_turns,
        );
    }
}

/// A run that is held to a contract records how many repairs it has and the hash
/// of the schema.
pub proof fn contracts_are_recorded(schema: JsonV, max_repairs: usize)
    ensures
        ir_agent::contract_record(schema, max_repairs).field("max_repairs"@) == Some(
            JsonV::Int(max_repairs as int),
        ),
        ir_agent::contract_record(schema, max_repairs).field("schema_hash"@) == Some(
            JsonV::Str(output_contract::hash_of(schema)),
        ),
{
    reveal_strlit("max_repairs");
    reveal_strlit("schema_hash");
    assert(mark("max_repairs"@) == (11nat, 'm', 's', 'e'));
    assert(mark("schema_hash"@) == (11nat, 's', 'h', 'a'));
    broadcast use naming::group_naming;

    let v = ir_agent::contract_record(schema, max_repairs);
    let f = Seq::<(Seq<char>, JsonV)>::empty().push(
        ("max_repairs"@, JsonV::Int(max_repairs as int)),
    ).push(("schema_hash"@, JsonV::Str(output_contract::hash_of(schema))));
    assert(v->Object_0 =~= f);
}

/// A recording is replayed under the schema that it was made with, or under none
/// where it was made without; anything else is refused with both hashes.
pub proof fn recordings_keep_their_schema(
    recording: &IrReplayTrace,
    contract: Option<&OutputContract>,
    r: Result<(), String>,
)
    requires
        call_ensures(ir_agent::check_output_schema_hash, (recording, contract), r),
    ensures
        (recording@.output_schema is None && contract is None) ==> r is Ok,
        (recording@.output_schema is None != contract is None) ==> r is Err,
        contract matches Some(c) ==> (recording@.output_schema == Some(
            output_contract::hash_of(c.schema@),
        ) <==> r is Ok),
{
}

} // verus!
