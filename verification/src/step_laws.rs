//! What instructions ask for, what becomes of their results, and what is
//! recorded of both.
use crate::approval;
use crate::approval::{
    ApprovalDecision, ApprovalKind, ApprovalRequestV, ApprovalResolutionV, GateEventV,
    GateOutcomeV, GateStepV,
};
use crate::codec;
use crate::digest;
use crate::driver;
use crate::driver::{AnswerV, Call, ClosingV, DriverV, SceneV};
use crate::effect::{DynamicPathV, EffectLocationV, EffectSite};
use crate::eval;
use crate::eval::EvalErrorV;
use crate::hydration;
use crate::interpreter;
use crate::interpreter::StorePlanV;
use crate::ir::{
    BlockV, EffectErrorMode, EffectKind, EvalRequestV, ExprV, InstrV, PromptRefV, SourceKind,
    StoreOp,
};
use crate::json;
use crate::json::{Fields, JsonV};
use crate::machine;
use crate::machine::{EffectV, MachineV, PromptSourceV, RunErrorV, StepV, TransferV, WorkV};
use crate::naming;
use crate::naming::mark;
use crate::op::ResponseV;
use crate::text;
use crate::trace::EventV;
use vstd::prelude::*;

verus! {

/// Whether an expression has a text for a value.
pub open spec fn is_text(env: Fields, e: ExprV, s: Seq<char>) -> bool {
    eval::eval(env, e) == Ok::<JsonV, EvalErrorV>(JsonV::Str(s))
}

/// Whether a location is that of an effect of a kind at a place of a program.
pub open spec fn is_at(
    l: EffectLocationV,
    kind: EffectKind,
    hash: Seq<char>,
    site: EffectSite,
    path: DynamicPathV,
) -> bool {
    l.kind == kind && l.program_hash == hash && l.site == site && l.dynamic_path == path
}

/// A binding gives its variable the value of its expression; an event is the
/// value of its expression.  Neither asks for anything where that has none.
pub proof fn bindings_and_events(
    env: Fields,
    out: Seq<char>,
    expr: ExprV,
    hash: Seq<char>,
    site: EffectSite,
    path: DynamicPathV,
)
    ensures
        match (
            eval::eval(env, expr),
            machine::demanded(env, InstrV::Let { out, expr }, hash, site, path),
        ) {
            (Ok(v), Ok(WorkV::Bind(x, w))) => x == out && w == v,
            (Err(e), Err(RunErrorV::Eval(x))) => x == e,
            _ => false,
        },
        match (
            eval::eval(env, expr),
            machine::demanded(env, InstrV::Emit { event: expr }, hash, site, path),
        ) {
            (Ok(v), Ok(WorkV::Effect(EffectV::Emit { event }))) => event == v,
            (Err(e), Err(RunErrorV::Eval(x))) => x == e,
            _ => false,
        },
{
}

/// An inference asks the model that its expression names, with the messages that
/// its prompt refers to and the tools that it is allowed.
pub proof fn inferences_ask_their_model(
    env: Fields,
    out: Seq<char>,
    model: ExprV,
    prompt: PromptRefV,
    on_error: EffectErrorMode,
    tools: Option<Seq<Seq<char>>>,
    hash: Seq<char>,
    site: EffectSite,
    path: DynamicPathV,
    s: Seq<char>,
)
    requires
        is_text(env, model, s),
        prompt matches PromptRefV::Var(v) ==> json::lookup(env, v) is Some,
        prompt matches PromptRefV::PromptIrVar(v) ==> json::lookup(env, v) is Some,
    ensures
        machine::demanded(
            env,
            InstrV::Infer { out, model, prompt, on_error, tools },
            hash,
            site,
            path,
        ) matches Ok(
            WorkV::Effect(
                EffectV::Infer { out: x, location, model: m, prompt: p, tools: t, on_error: o },
            ),
        ) && x == out && m == s && t == tools && o == on_error && is_at(
            location,
            EffectKind::Infer,
            hash,
            site,
            path,
        ) && match prompt {
            PromptRefV::Inline(messages) => p == PromptSourceV::Messages(messages),
            PromptRefV::Var(v) => p == PromptSourceV::Encoded(json::lookup(env, v)->0),
            PromptRefV::PromptIr(d) => p == PromptSourceV::Document(d),
            PromptRefV::PromptIrVar(v) => p == PromptSourceV::Document(json::lookup(env, v)->0),
        },
{
}

proof fn arguments_in_place(env: Fields, argv: Seq<ExprV>, n: nat)
    requires
        n <= argv.len(),
        forall|i: int|
            0 <= i < argv.len() ==> (eval::eval(env, #[trigger] argv[i]) matches Ok(JsonV::Str(_))),
    ensures
        machine::argv_values(env, argv, n) matches Ok(l) && l.len() == n && forall|i: int|
            0 <= i < n ==> is_text(env, argv[i], #[trigger] l[i]),
    decreases n,
{
    if n > 0 {
        arguments_in_place(env, argv, (n - 1) as nat);
        assert(eval::eval(env, argv[n - 1]) matches Ok(JsonV::Str(_)));
        let l = machine::argv_values(env, argv, n)->Ok_0;
        let k = machine::argv_values(env, argv, (n - 1) as nat)->Ok_0;
        assert forall|i: int| 0 <= i < n implies is_text(env, argv[i], #[trigger] l[i]) by {
            if i < n - 1 {
                assert(l[i] == k[i]);
            }
        }
    }
}

/// A command runs as it is written, or with its arguments in their places, and
/// waits for approval exactly where the instruction says so.
pub proof fn commands_run_as_written(
    env: Fields,
    out: Seq<char>,
    command: ExprV,
    argv: Seq<ExprV>,
    gated: bool,
    hash: Seq<char>,
    site: EffectSite,
    path: DynamicPathV,
    s: Seq<char>,
)
    requires
        is_text(env, command, s),
        forall|i: int|
            0 <= i < argv.len() ==> (eval::eval(env, #[trigger] argv[i]) matches Ok(JsonV::Str(_))),
    ensures
        machine::demanded(
            env,
            InstrV::Eval {
                out,
                request: EvalRequestV::Shell { command },
                require_approval: gated,
            },
            hash,
            site,
            path,
        ) matches Ok(WorkV::Effect(EffectV::Eval { out: x, location, command: c, argv: a, gated: g }))
            && x == out && c == s && a is None && g == gated && is_at(
            location,
            EffectKind::Eval,
            hash,
            site,
            path,
        ),
        machine::demanded(
            env,
            InstrV::Eval { out, request: EvalRequestV::Argv { argv }, require_approval: gated },
            hash,
            site,
            path,
        ) matches Ok(WorkV::Effect(EffectV::Eval { out: x, location, command: c, argv: a, gated: g }))
            && x == out && g == gated && is_at(location, EffectKind::Eval, hash, site, path)
            && (a matches Some(l) && l.len() == argv.len() && c == machine::shown_command(l)
            && forall|i: int| 0 <= i < l.len() ==> is_text(env, argv[i], #[trigger] l[i])),
{
    arguments_in_place(env, argv, argv.len());
}

/// A retrieval asks what its expression says, of the kind and within the bound
/// that the instruction names.
pub proof fn retrievals_ask_their_query(
    env: Fields,
    out: Seq<char>,
    query: ExprV,
    kind: Option<SourceKind>,
    max_bytes: Option<usize>,
    on_error: EffectErrorMode,
    hash: Seq<char>,
    site: EffectSite,
    path: DynamicPathV,
    s: Seq<char>,
)
    requires
        is_text(env, query, s),
    ensures
        machine::demanded(
            env,
            InstrV::Retrieve { out, query, kind, max_bytes, on_error },
            hash,
            site,
            path,
        ) matches Ok(
            WorkV::Effect(
                EffectV::Retrieve {
                    out: x,
                    location,
                    query: q,
                    kind: k,
                    max_bytes: b,
                    on_error: o,
                },
            ),
        ) && x == out && q == s && k == kind && b == max_bytes && o == on_error && is_at(
            location,
            EffectKind::Retrieve,
            hash,
            site,
            path,
        ),
{
}

/// A write goes to the sink that its expression names, with the item that the
/// other gives and the digest of that item; it names the id that it is given,
/// and none where it is given none.
pub proof fn writes_go_to_their_sink(
    env: Fields,
    out: Seq<char>,
    sink: ExprV,
    op: StoreOp,
    id: Option<ExprV>,
    item: ExprV,
    on_error: EffectErrorMode,
    hash: Seq<char>,
    site: EffectSite,
    path: DynamicPathV,
    s: Seq<char>,
    v: JsonV,
)
    requires
        is_text(env, sink, s),
        eval::eval(env, item) == Ok::<JsonV, EvalErrorV>(v),
        id matches Some(e) ==> (eval::eval(env, e) matches Ok(JsonV::Str(_))),
    ensures
        machine::demanded(
            env,
            InstrV::Store { out, sink, op, id, item, on_error },
            hash,
            site,
            path,
        ) matches Ok(
            WorkV::Effect(
                EffectV::Store {
                    out: x,
                    location,
                    sink: k,
                    op: p,
                    id: n,
                    item: w,
                    content_hash,
                    on_error: o,
                },
            ),
        ) && x == out && k == s && p == op && w == v && o == on_error && is_at(
            location,
            EffectKind::Store,
            hash,
            site,
            path,
        ) && content_hash == digest::text_digest(json::json_text(v)) && (id is None <==> n is None)
            && (id matches Some(e) ==> is_text(env, e, n->0)),
{
}

/// A tool is called by its name with the value of its arguments.
pub proof fn tools_are_called_by_name(
    env: Fields,
    out: Seq<char>,
    name: Seq<char>,
    arguments: ExprV,
    on_error: EffectErrorMode,
    hash: Seq<char>,
    site: EffectSite,
    path: DynamicPathV,
    v: JsonV,
)
    requires
        eval::eval(env, arguments) == Ok::<JsonV, EvalErrorV>(v),
    ensures
        machine::demanded(
            env,
            InstrV::Tool { out, name, arguments, on_error },
            hash,
            site,
            path,
        ) matches Ok(
            WorkV::Effect(EffectV::Tool { out: x, location, name: n, arguments: a, on_error: o }),
        ) && x == out && n == name && a == v && o == on_error && is_at(
            location,
            EffectKind::Tool,
            hash,
            site,
            path,
        ),
{
}

/// A name where a text is needed must be one: what is no text asks for nothing.
pub proof fn names_must_be_texts(
    env: Fields,
    out: Seq<char>,
    e: ExprV,
    prompt: PromptRefV,
    item: ExprV,
    hash: Seq<char>,
    site: EffectSite,
    path: DynamicPathV,
    v: JsonV,
)
    requires
        eval::eval(env, e) == Ok::<JsonV, EvalErrorV>(v),
        v !is Str,
    ensures
        machine::demanded(
            env,
            InstrV::Infer {
                out,
                model: e,
                prompt,
                on_error: EffectErrorMode::Abort,
                tools: None,
            },
            hash,
            site,
            path,
        ) is Err,
        machine::demanded(
            env,
            InstrV::Eval {
                out,
                request: EvalRequestV::Shell { command: e },
                require_approval: false,
            },
            hash,
            site,
            path,
        ) is Err,
        machine::demanded(
            env,
            InstrV::Retrieve {
                out,
                query: e,
                kind: None,
                max_bytes: None,
                on_error: EffectErrorMode::Abort,
            },
            hash,
            site,
            path,
        ) is Err,
        machine::demanded(
            env,
            InstrV::Store {
                out,
                sink: e,
                op: StoreOp::Create,
                id: None,
                item,
                on_error: EffectErrorMode::Abort,
            },
            hash,
            site,
            path,
        ) is Err,
{
}

/// An argument of plain characters is shown as it stands; any other is shown in
/// single quotes, and each of its own quotes is closed, escaped and opened.
pub proof fn odd_arguments_are_quoted(s: Seq<char>, argv: Seq<Seq<char>>)
    ensures
        s.len() > 0 && (forall|i: int| 0 <= i < s.len() ==> machine::is_plain(#[trigger] s[i]))
            ==> machine::shown_arg(s) == s,
        (exists|i: int| 0 <= i < s.len() && !machine::is_plain(#[trigger] s[i]))
            ==> machine::shown_arg(s).len() >= s.len() + 2 && machine::shown_arg(s)[0] == '\''
            && machine::shown_arg(s).last() == '\'',
        s.len() == 0 ==> machine::shown_arg(s) =~= seq!['\'', '\''],
        !machine::is_plain(' ') && !machine::is_plain('\'') && !machine::is_plain('"')
            && !machine::is_plain('$') && !machine::is_plain('\\') && !machine::is_plain(';')
            && !machine::is_plain('&') && !machine::is_plain('|') && !machine::is_plain('*')
            && !machine::is_plain('`') && !machine::is_plain('\n') && !machine::is_plain('(')
            && !machine::is_plain('<') && !machine::is_plain('>') && !machine::is_plain('#'),
        machine::shown_command(seq![s]) == machine::shown_arg(s),
        argv.len() > 0 ==> machine::shown_command(argv.push(s)) == machine::shown_command(argv)
            + " "@ + machine::shown_arg(s),
{
    reveal_strlit("'");
    quoting_keeps(s);
    assert(argv.push(s).drop_last() =~= argv);
    assert(machine::escaped(Seq::empty()).len() == 0);
}

proof fn quoting_keeps(s: Seq<char>)
    ensures
        machine::escaped(s).len() >= s.len(),
        (forall|i: int| 0 <= i < s.len() ==> #[trigger] s[i] != '\'') ==> machine::escaped(s) == s,
    decreases s.len(),
{
    if s.len() > 0 {
        reveal_strlit("'\\''");
        quoting_keeps(s.drop_last());
        if forall|i: int| 0 <= i < s.len() ==> #[trigger] s[i] != '\'' {
            assert forall|i: int| 0 <= i < s.drop_last().len() implies #[trigger] s.drop_last()[i]
                != '\'' by {
                assert(s[i] != '\'');
            }
            assert(s[s.len() - 1] != '\'');
            assert(s.drop_last().push(s.last()) =~= s);
        }
    }
}

/// The result of an effect is bound to its variable and the run goes on behind
/// it; a failure is bound as a value that says so, or ends the run with what
/// went wrong, as the instruction has it.
pub proof fn results_are_bound(
    m: MachineV,
    out: Seq<char>,
    other: Seq<char>,
    v: JsonV,
    error: Seq<char>,
    mode: EffectErrorMode,
)
    requires
        other != out,
    ensures
        interpreter::settled(m, out, mode, Ok(v)) matches Ok(n) && json::lookup(n.env, out) == Some(
            v,
        ) && json::lookup(n.env, other) == json::lookup(m.env, other) && n.pc == m.pc + 1 && n.block
            == m.block && n.visits == m.visits && n.path == m.path && n.program == m.program,
        interpreter::settled(m, out, EffectErrorMode::Bind, Err(error)) matches Ok(n)
            && json::lookup(n.env, out) == Some(interpreter::error_value(error)) && n.pc == m.pc + 1
            && n.block == m.block,
        interpreter::error_value(error).field("error"@) == Some(JsonV::Str(error)),
        interpreter::error_value(error).field("ok"@) == Some(JsonV::Bool(false)),
        interpreter::settled(m, out, EffectErrorMode::Abort, Err(error)) == Err::<
            MachineV,
            RunErrorV,
        >(RunErrorV::Effect(error)),
{
    broadcast use naming::group_naming;

    json::put_then_lookup(m.env, out, v);
    json::put_keeps_others(m.env, out, v, other);
    json::put_then_lookup(m.env, out, interpreter::error_value(error));
    reveal_strlit("error");
    reveal_strlit("ok");
    assert("error"@.len() == 5 && "ok"@.len() == 2);
    let f = Seq::empty().push(("error"@, JsonV::Str(error))).push(("ok"@, JsonV::Bool(false)));
    assert(interpreter::error_value(error)->Object_0 =~= f);
}

/// A visit is counted once, and a visit that is taken back is not counted.
pub proof fn visits_are_counted(m: MachineV, site: EffectSite)
    requires
        machine::visits_at(m, site) < u64::MAX,
    ensures
        machine::visits_at(machine::visited(m, site), site) == machine::visits_at(m, site) + 1,
        machine::visits_at(machine::rewound(machine::visited(m, site), site), site)
            == machine::visits_at(m, site),
        machine::visited(m, site).env == m.env,
        machine::visited(m, site).pc == m.pc,
        machine::visited(m, site).block == m.block,
        machine::rewound(m, site).env == m.env,
        machine::rewound(m, site).pc == m.pc,
{
}

/// A step at an instruction does what the instruction asks for: a binding is
/// made, an effect is handed out with the machine standing where it stood, and
/// the visit is counted; behind the last instruction the end of the block
/// decides.
pub proof fn steps_do_what_is_asked(m: MachineV, hash: Seq<char>)
    ensures
        machine::stepped(m, hash) matches Ok(StepV::Effect(x, e)) ==> {
            &&& x.env == m.env
            &&& x.pc == m.pc
            &&& x.block == m.block
            &&& x.program == m.program
            &&& x.path == m.path
            &&& machine::visits_at(m, interpreter::site_of(m)) < u64::MAX ==> machine::visits_at(
                x,
                interpreter::site_of(m),
            ) == machine::visits_at(m, interpreter::site_of(m)) + 1
        },
        machine::stepped(m, hash) is Ok && machine::stepped(m, hash)->Ok_0 is Complete ==> {
            let b = crate::ir::block_at(m.program.blocks, m.block);
            b is Some && !(0 <= m.pc < (b->0).instructions.len()) && (b->0).terminator is Return
        },
{
    reveal(machine::stepped);
    let b = crate::ir::block_at(m.program.blocks, m.block);
    if machine::stepped(m, hash) is Ok && machine::stepped(m, hash)->Ok_0 is Complete {
        assert(!(0 <= m.pc < (b->0).instructions.len()));
        assert(machine::transferred(m, (b->0).terminator) is Ok);
    }
}

/// What is recorded before an effect says who asked for what, under the id of the
/// call, and where the effect stands.
pub proof fn calls_are_recorded(d: DriverV, e: EffectV, call: Call, scene: SceneV)
    ensures
        e is Emit <==> driver::call_record(d, e, call, scene) is None,
        e matches EffectV::Infer { model: m, location: l, .. } ==> (driver::call_record(
            d,
            e,
            call,
            scene,
        ) matches Some(
            EventV::InferCall {
                run_id,
                op_id,
                parent_op_id,
                model,
                prompt,
                prompt_preview,
                effect,
                timestamp,
            },
        ) && run_id == d.run_id && op_id == call.op_id && parent_op_id == call.parent_op_id && model
            == m && prompt == scene.prompt && prompt_preview == scene.prompt_preview && effect
            == Some(l) && timestamp == scene.timestamp),
        e matches EffectV::Eval { command: c, argv: a, location: l, .. } ==> (driver::call_record(
            d,
            e,
            call,
            scene,
        ) matches Some(
            EventV::EvalCall {
                run_id,
                op_id,
                parent_op_id,
                command,
                argv,
                cwd,
                env_policy,
                timeout_ms,
                effect,
                timestamp,
            },
        ) && run_id == d.run_id && op_id == call.op_id && parent_op_id == call.parent_op_id
            && command == c && argv == a && cwd == scene.cwd && env_policy == scene.env_policy
            && timeout_ms == scene.timeout_ms && effect == Some(l) && timestamp == scene.timestamp),
        e matches EffectV::Retrieve { query: q, kind: k, max_bytes: b, location: l, .. } ==> (
        driver::call_record(d, e, call, scene) matches Some(
            EventV::RetrieveCall {
                run_id,
                op_id,
                parent_op_id,
                query,
                kind,
                max_bytes,
                effect,
                timestamp,
            },
        ) && run_id == d.run_id && op_id == call.op_id && parent_op_id == call.parent_op_id && query
            == q && (k is None <==> kind is None) && (k matches Some(x) ==> kind == Some(x.text()))
            && max_bytes == b && effect == Some(l) && timestamp == scene.timestamp),
        e matches EffectV::Store { sink: s, op: o, id: i, item: v, content_hash: h, location: l, .. }
            ==> (driver::call_record(d, e, call, scene) matches Some(
            EventV::StoreCall {
                run_id,
                op_id,
                parent_op_id,
                sink,
                store_op,
                store_id,
                item_preview,
                content_hash,
                effect,
                timestamp,
            },
        ) && run_id == d.run_id && op_id == call.op_id && parent_op_id == call.parent_op_id && sink
            == s && store_op == o.text() && store_id == i && content_hash == h && effect == Some(l)
            && timestamp == scene.timestamp && item_preview.len() <= 256 && (json::json_text(v).len()
            <= 256 ==> item_preview == json::json_text(v))),
        e matches EffectV::Tool { name: n, arguments: a, location: l, .. } ==> (driver::call_record(
            d,
            e,
            call,
            scene,
        ) matches Some(
            EventV::ToolCall {
                run_id,
                op_id,
                parent_op_id,
                name,
                arguments,
                effect,
                timestamp,
            },
        ) && run_id == d.run_id && op_id == call.op_id && parent_op_id == call.parent_op_id && name
            == n && arguments == a && effect == Some(l) && timestamp == scene.timestamp),
{
}

/// What is recorded after an effect that failed says what went wrong and how long
/// it took, under the id of the call.
pub proof fn failures_are_recorded(
    d: DriverV,
    e: EffectV,
    call: Call,
    error: Seq<char>,
    closing: ClosingV,
)
    ensures
        ({
            let r = driver::outcome_record(d, e, call, Err(error), closing);
            &&& e is Infer ==> (r matches Some(
                EventV::InferError {
                    run_id,
                    op_id,
                    parent_op_id,
                    error: x,
                    duration_ms,
                    timestamp,
                },
            ) && run_id == d.run_id && op_id == call.op_id && parent_op_id == call.parent_op_id && x
                == error && duration_ms == closing.elapsed_ms && timestamp == closing.timestamp)
            &&& e matches EffectV::Eval { command: c, .. } ==> (r matches Some(
                EventV::EvalError {
                    run_id,
                    op_id,
                    parent_op_id,
                    command,
                    error: x,
                    duration_ms,
                    timestamp,
                },
            ) && run_id == d.run_id && op_id == call.op_id && parent_op_id == call.parent_op_id && x
                == error && command == c && duration_ms == closing.elapsed_ms && timestamp
                == closing.timestamp)
            &&& e is Retrieve ==> (r matches Some(
                EventV::RetrieveError {
                    run_id,
                    op_id,
                    parent_op_id,
                    error: x,
                    duration_ms,
                    timestamp,
                },
            ) && run_id == d.run_id && op_id == call.op_id && parent_op_id == call.parent_op_id && x
                == error && duration_ms == closing.elapsed_ms && timestamp == closing.timestamp)
            &&& e matches EffectV::Store { sink: s, .. } ==> (r matches Some(
                EventV::StoreError {
                    run_id,
                    op_id,
                    parent_op_id,
                    sink,
                    error: x,
                    duration_ms,
                    timestamp,
                },
            ) && run_id == d.run_id && op_id == call.op_id && parent_op_id == call.parent_op_id && x
                == error && sink == s && duration_ms == closing.elapsed_ms && timestamp
                == closing.timestamp)
            &&& e matches EffectV::Tool { name: n, .. } ==> (r matches Some(
                EventV::ToolError {
                    run_id,
                    op_id,
                    parent_op_id,
                    name,
                    error: x,
                    duration_ms,
                    timestamp,
                },
            ) && run_id == d.run_id && op_id == call.op_id && parent_op_id == call.parent_op_id && x
                == error && name == n && duration_ms == closing.elapsed_ms && timestamp
                == closing.timestamp)
        }),
{
}

/// What is recorded after an effect that succeeded says what came of it: the
/// result itself, an excerpt of it and its size, under the id of the call.
pub proof fn results_are_recorded(
    d: DriverV,
    e: EffectV,
    call: Call,
    v: JsonV,
    id: Seq<char>,
    closing: ClosingV,
)
    requires
        json::json_text(v).len() <= 512,
        hydration::byte_len(json::json_text(v)) <= usize::MAX,
        v is Array ==> v->Array_0.len() <= usize::MAX,
    ensures
        ({
            let r = driver::outcome_record(d, e, call, Ok(AnswerV::Value(v)), closing);
            let w = driver::outcome_record(d, e, call, Ok(AnswerV::Id(id)), closing);
            &&& e matches EffectV::Eval { command: c, .. } ==> (r matches Some(
                EventV::EvalResult {
                    run_id,
                    op_id,
                    parent_op_id,
                    command,
                    result,
                    duration_ms,
                    truncated_stdout,
                    truncated_stderr,
                    timestamp,
                },
            ) && run_id == d.run_id && op_id == call.op_id && parent_op_id == call.parent_op_id
                && command == c && result == v && timestamp == closing.timestamp && (
            truncated_stdout <==> v.field("stdout_truncated"@) == Some(JsonV::Bool(true))) && (
            truncated_stderr <==> v.field("stderr_truncated"@) == Some(JsonV::Bool(true))) && (
            v.field("duration_ms"@) matches Some(JsonV::Int(n)) ==> (0 <= n <= u64::MAX
                ==> duration_ms == n)))
            &&& e is Retrieve ==> (r matches Some(
                EventV::RetrieveResult {
                    run_id,
                    op_id,
                    parent_op_id,
                    results,
                    result_preview,
                    source_count,
                    bytes,
                    duration_ms,
                    timestamp,
                },
            ) && run_id == d.run_id && op_id == call.op_id && parent_op_id == call.parent_op_id
                && results == v && result_preview == json::json_text(v) && bytes
                == hydration::byte_len(json::json_text(v)) && (v is Array ==> source_count
                == v->Array_0.len()) && (v !is Array ==> source_count == 0) && duration_ms
                == closing.elapsed_ms && timestamp == closing.timestamp)
            &&& e matches EffectV::Tool { name: n, .. } ==> (r matches Some(
                EventV::ToolResult {
                    run_id,
                    op_id,
                    parent_op_id,
                    name,
                    result,
                    result_preview,
                    duration_ms,
                    timestamp,
                },
            ) && run_id == d.run_id && op_id == call.op_id && parent_op_id == call.parent_op_id
                && name == n && result == v && result_preview == json::json_text(v) && duration_ms
                == closing.elapsed_ms && timestamp == closing.timestamp)
            &&& e matches EffectV::Store { sink: s, .. } ==> (w matches Some(
                EventV::StoreResult {
                    run_id,
                    op_id,
                    parent_op_id,
                    sink,
                    sink_id,
                    duration_ms,
                    timestamp,
                },
            ) && run_id == d.run_id && op_id == call.op_id && parent_op_id == call.parent_op_id
                && sink == s && sink_id == id && duration_ms == closing.elapsed_ms && timestamp
                == closing.timestamp)
        }),
{
}

/// An inference of its own tools is a child of the turn before it; any other
/// begins a turn, and the calls that follow belong to it.
pub proof fn turns_own_their_children(last: Option<u64>, op_id: u64)
    ensures
        interpreter::lineage(last, false, op_id).0 is None,
        interpreter::lineage(interpreter::lineage(last, false, op_id).1, true, op_id).0 == Some(
            op_id,
        ),
        interpreter::lineage(last, true, op_id) == (last, last),
{
}

/// A new item needs no id; to revise or remove one, its id is needed and used.
pub proof fn revisions_need_an_id(id: Option<Seq<char>>)
    ensures
        interpreter::planned(StoreOp::Create, id) == Ok::<StorePlanV, Seq<char>>(
            StorePlanV::Create,
        ),
        match interpreter::planned(StoreOp::Update, id) {
            Ok(StorePlanV::Update(x)) => id == Some(x),
            Err(_) => id is None,
            _ => false,
        },
        match interpreter::planned(StoreOp::Delete, id) {
            Ok(StorePlanV::Delete(x)) => id == Some(x),
            Err(_) => id is None,
            _ => false,
        },
{
}

/// What is asked of a person shows the command or the write under the names of
/// its parts.
pub proof fn requests_show_their_parts(
    command: Seq<char>,
    argv: Seq<Seq<char>>,
    sink: Seq<char>,
    op: StoreOp,
    id: Option<Seq<char>>,
    item: JsonV,
    hash: Seq<char>,
)
    ensures
        interpreter::eval_request(command, None).field("command"@) == Some(JsonV::Str(command)),
        interpreter::eval_request(command, None).field("argv"@) == Some(JsonV::Null),
        interpreter::eval_request(command, Some(argv)).field("argv"@) matches Some(JsonV::Array(l))
            && l.len() == argv.len() && forall|i: int|
            0 <= i < l.len() ==> #[trigger] l[i] == JsonV::Str(argv[i]),
        ({
            let r = interpreter::store_request(sink, op, id, item, hash);
            &&& r.field("sink"@) == Some(JsonV::Str(sink))
            &&& r.field("content_hash"@) == Some(JsonV::Str(hash))
            &&& r.field("op"@) == Some(JsonV::Str(op.text()))
            &&& r.field("id"@) == Some(
                match id {
                    Some(s) => JsonV::Str(s),
                    None => JsonV::Null,
                },
            )
            &&& json::json_text(item).len() <= 256 ==> r.field("item_preview"@) == Some(
                JsonV::Str(json::json_text(item)),
            )
        }),
        StoreOp::Create.text() == "create"@,
        StoreOp::Update.text() == "update"@,
        StoreOp::Delete.text() == "delete"@,
        SourceKind::Temporal.text() == "Temporal"@,
        SourceKind::Semantic.text() == "Semantic"@,
        SourceKind::Knowledge.text() == "Knowledge"@,
{
    broadcast use naming::group_naming;

    reveal_strlit("argv");
    reveal_strlit("command");
    reveal_strlit("content_hash");
    reveal_strlit("id");
    reveal_strlit("item_preview");
    reveal_strlit("op");
    reveal_strlit("sink");
    assert(mark("argv"@) == (4nat, 'a', 'v', 'g'));
    assert(mark("command"@).0 == 7);
    assert(mark("content_hash"@) == (12nat, 'c', 'h', 't'));
    assert(mark("id"@) == (2nat, 'i', 'd', 'd'));
    assert(mark("item_preview"@) == (12nat, 'i', 'w', 'r'));
    assert(mark("op"@) == (2nat, 'o', 'p', 'p'));
    assert(mark("sink"@) == (4nat, 's', 'k', 'n'));
    let f = Seq::empty().push(("argv"@, JsonV::Null)).push(("command"@, JsonV::Str(command)));
    assert(interpreter::eval_request(command, None)->Object_0 =~= f);
    let l = crate::ir_hash::texts_json(argv);
    let f = Seq::empty().push(("argv"@, l)).push(("command"@, JsonV::Str(command)));
    assert(interpreter::eval_request(command, Some(argv))->Object_0 =~= f);
    let r = interpreter::store_request(sink, op, id, item, hash);
    let f = Seq::empty().push(("content_hash"@, JsonV::Str(hash))).push(
        ("id"@, approval::opt_text_json(id)),
    ).push(("item_preview"@, JsonV::Str(text::prefix(json::json_text(item), 256)))).push(
        ("op"@, JsonV::Str(op.text())),
    ).push(("sink"@, JsonV::Str(sink)));
    assert(r->Object_0 =~= f);
}

/// An approval is followed: what is approved goes on, what is denied does not,
/// and the record says which, by whom and why, under the id that waits.
pub proof fn decisions_are_followed(
    run_id: Seq<char>,
    location: EffectLocationV,
    kind: ApprovalKind,
    request: JsonV,
    x: ApprovalResolutionV,
)
    ensures
        approval::reached(run_id, location, kind, request, false, Some(x)) is Open,
        approval::reached(run_id, location, kind, request, true, Some(x)) matches GateStepV::Settled {
            event: GateEventV::Resolved {
                pending_id,
                effect_id,
                kind: k,
                decision,
                resolved_by,
                reason,
            },
            outcome,
        } && pending_id == approval::pending_id(run_id, location.effect_id) && effect_id
            == location.effect_id && k == kind && resolved_by == x.resolved_by && reason == x.reason
            && (x.decision == ApprovalDecision::Approve ==> outcome is Proceed && decision
            == "approved"@) && (x.decision == ApprovalDecision::Deny ==> outcome is Deny && decision
            == "denied"@),
        approval::reached(run_id, location, kind, request, true, None) matches GateStepV::Ask {
            event: GateEventV::Requested { pending_id, kind: k, request: q, effect },
            pending,
        } && pending_id == approval::pending_id(run_id, location.effect_id) && k == kind && q
            == request && effect == location && pending.pending_id == pending_id && pending.effect
            == location && pending.kind == kind && pending.request == request,
        "pa-"@.is_prefix_of(approval::pending_id(run_id, location.effect_id)),
{
    let s = approval::pending_id(run_id, location.effect_id);
    assert(s.subrange(0, "pa-"@.len() as int) =~= "pa-"@);
}

/// A denial tells under their names what was denied, by whom and why.
pub proof fn denials_tell_their_story(
    pending_id: Seq<char>,
    by: Option<Seq<char>>,
    reason: Option<Seq<char>>,
)
    ensures
        ({
            let v = approval::denial(pending_id, by, reason);
            let story = v.field("approval"@)->0;
            &&& v.field("approval"@) is Some
            &&& v.field("ok"@) == Some(JsonV::Bool(false))
            &&& v.field("error"@) == Some(JsonV::Str("approval denied"@))
            &&& story.field("pending_id"@) == Some(JsonV::Str(pending_id))
            &&& story.field("status"@) == Some(JsonV::Str("denied"@))
            &&& story.field("resolved_by"@) == Some(
                match by {
                    Some(s) => JsonV::Str(s),
                    None => JsonV::Null,
                },
            )
            &&& story.field("reason"@) == Some(
                match reason {
                    Some(s) => JsonV::Str(s),
                    None => JsonV::Null,
                },
            )
        }),
{
    broadcast use naming::group_naming;

    reveal_strlit("approval");
    reveal_strlit("error");
    reveal_strlit("ok");
    reveal_strlit("pending_id");
    reveal_strlit("reason");
    reveal_strlit("resolved_by");
    reveal_strlit("status");
    assert(mark("approval"@).0 == 8 && mark("error"@).0 == 5 && mark("ok"@).0 == 2);
    assert(mark("pending_id"@).0 == 10 && mark("resolved_by"@).0 == 11);
    assert(mark("reason"@) == (6nat, 'r', 'n', 's') && mark("status"@) == (6nat, 's', 's', 't'));
    let g = Seq::empty().push(("pending_id"@, JsonV::Str(pending_id))).push(
        ("reason"@, approval::opt_text_json(reason)),
    ).push(("resolved_by"@, approval::opt_text_json(by))).push(
        ("status"@, JsonV::Str("denied"@)),
    );
    let v = approval::denial(pending_id, by, reason);
    let f = Seq::empty().push(("approval"@, JsonV::Object(g))).push(
        ("error"@, JsonV::Str("approval denied"@)),
    ).push(("ok"@, JsonV::Bool(false)));
    assert((v->Object_0)[0].1->Object_0 =~= g);
    assert(v->Object_0 =~= f);
}

/// A person's answer on the spot is followed and recorded as such.
pub proof fn answers_on_the_spot(pending: ApprovalRequestV)
    ensures
        approval::answered(pending, Some(ApprovalDecision::Approve)).1 is Proceed,
        approval::answered(pending, Some(ApprovalDecision::Deny)).1 == GateOutcomeV::Deny(
            approval::denial(pending.pending_id, Some("hook"@), None),
        ),
        approval::answered(pending, Some(ApprovalDecision::Deny)).0 matches Some(
            GateEventV::Resolved { pending_id, effect_id, kind, decision, resolved_by, reason },
        ) && pending_id == pending.pending_id && effect_id == pending.effect.effect_id && kind
            == pending.kind && decision == "denied"@ && resolved_by == Some("hook"@) && reason is None,
        approval::answered(pending, None).0 is None,
{
}

/// What a gate says is recorded as it was said, in the name of the run.
pub proof fn gates_are_recorded(d: DriverV, e: GateEventV, timestamp: i128)
    ensures
        match (e, driver::gate_record(d, e, timestamp)) {
            (
                GateEventV::Requested { pending_id, kind, request, effect },
                EventV::ApprovalRequested {
                    run_id,
                    pending_id: p,
                    kind: k,
                    request: q,
                    effect: l,
                    timestamp: t,
                },
            ) => run_id == d.run_id && p == pending_id && q == request && l == effect && t
                == timestamp && (kind == ApprovalKind::Eval ==> k == "eval"@) && (kind
                == ApprovalKind::Store ==> k == "store"@),
            (
                GateEventV::Resolved { pending_id, effect_id, kind, decision, resolved_by, reason },
                EventV::ApprovalResolved {
                    run_id,
                    pending_id: p,
                    effect_id: i,
                    kind: k,
                    decision: c,
                    resolved_by: b,
                    reason: r,
                    timestamp: t,
                },
            ) => run_id == d.run_id && p == pending_id && i == effect_id && c == decision && b
                == resolved_by && r == reason && t == timestamp && (kind == ApprovalKind::Eval ==> k
                == "eval"@) && (kind == ApprovalKind::Store ==> k == "store"@),
            _ => false,
        },
{
}

/// Only commands and writes can be gated: a command by its instruction, a write
/// by its sink.
pub proof fn gates_stand_before_commands_and_writes(
    d: DriverV,
    e: EffectV,
    guarded: bool,
    resolution: Option<ApprovalResolutionV>,
)
    ensures
        e matches EffectV::Eval { gated, .. } ==> (driver::approached(d, e, guarded, resolution)
            is Open <==> !gated),
        e is Store ==> (driver::approached(d, e, guarded, resolution) is Open <==> !guarded),
        e !is Eval && e !is Store ==> driver::approached(d, e, guarded, resolution) is Open,
{
}

/// A denied effect binds its denial and goes on; one that waits stands where it
/// stood, as if it had not been visited; one that may go on is untouched.
pub proof fn gates_leave_the_run(d: DriverV, e: EffectV, v: JsonV, pending: ApprovalRequestV)
    requires
        e !is Emit,
    ensures
        ({
            let out = driver::out_of(e)->0;
            let n = driver::passed(d, e, GateOutcomeV::Deny(v));
            let w = driver::passed(d, e, GateOutcomeV::Pause(pending));
            &&& driver::passed(d, e, GateOutcomeV::Proceed) == d
            &&& json::lookup(n.machine.env, out) == Some(v)
            &&& n.machine.pc == d.machine.pc + 1
            &&& n.run_id == d.run_id && n.hash == d.hash && n.limit == d.limit
            &&& d.executed < usize::MAX ==> n.executed == d.executed + 1
            &&& w.machine.pc == d.machine.pc
            &&& w.machine.env == d.machine.env
            &&& w.executed == d.executed
        }),
{
    json::put_then_lookup(d.machine.env, driver::out_of(e)->0, v);
}

/// The answer of a model is bound as the value that stands for it, the id of a
/// write as a text, and any other answer as it is.
pub proof fn answers_are_bound_by_their_form(
    d: DriverV,
    e: EffectV,
    a: AnswerV,
)
    requires
        e !is Emit,
    ensures
        driver::closed(d, e, Ok(a)) matches Ok(n) && json::lookup(
            n.machine.env,
            driver::out_of(e)->0,
        ) == Some(
            match a {
                AnswerV::Response(r) => codec::response_json(r),
                AnswerV::Id(s) => JsonV::Str(s),
                AnswerV::Value(v) => v,
            },
        ) && n.machine.pc == d.machine.pc + 1 && (d.executed < usize::MAX ==> n.executed == d.executed
            + 1),
{
    json::put_then_lookup(d.machine.env, driver::out_of(e)->0, driver::answer_json(a));
}

/// What is recorded of an answered inference: the response and each of its figures in
/// its own place.
pub proof fn answers_are_recorded_with_their_figures(
    d: DriverV,
    e: EffectV,
    call: Call,
    x: ResponseV,
    closing: ClosingV,
)
    requires
        e is Infer,
    ensures
        driver::outcome_record(d, e, call, Ok(AnswerV::Response(x)), closing) matches Some(
            EventV::InferResult {
                run_id,
                op_id,
                parent_op_id,
                response,
                response_preview,
                input_tokens,
                output_tokens,
                total_tokens,
                cached_input_tokens,
                cost_micro_usd,
                pricing,
                duration_ms,
                timestamp,
            },
        ) && run_id == d.run_id && op_id == call.op_id && parent_op_id == call.parent_op_id
            && response == Some(x) && response_preview == closing.response_preview && input_tokens
            == x.input_tokens && output_tokens == x.output_tokens && total_tokens == x.total_tokens
            && cached_input_tokens == x.cached_input_tokens && cost_micro_usd == x.cost_micro_usd
            && pricing == x.pricing && duration_ms == closing.elapsed_ms && timestamp
            == closing.timestamp,
{
}

/// Long results are recorded whole and shown by how they start.
pub proof fn long_results_are_shown_by_their_start(
    d: DriverV,
    e: EffectV,
    call: Call,
    v: JsonV,
    closing: ClosingV,
)
    requires
        json::json_text(v).len() > 512,
    ensures
        ({
            let r = driver::outcome_record(d, e, call, Ok(AnswerV::Value(v)), closing);
            &&& e is Retrieve ==> (r matches Some(EventV::RetrieveResult { results, result_preview, .. })
                && results == v && result_preview == json::json_text(v).take(512))
            &&& e is Tool ==> (r matches Some(EventV::ToolResult { result, result_preview, .. })
                && result == v && result_preview == json::json_text(v).take(512))
            &&& e is Eval && v.field("duration_ms"@) is None ==> (r matches Some(
                EventV::EvalResult { duration_ms, .. },
            ) && duration_ms == 0)
        }),
{
}

/// A machine does the instruction that it stands at: a value that it computes is bound
/// under the name of the output and the next instruction is up; work that it asks for is
/// handed out as it is asked for, placed by the visits before this one.  Behind the last
/// instruction the terminator decides.
pub proof fn machines_do_the_instruction_they_stand_at(m: MachineV, hash: Seq<char>, b: BlockV)
    requires
        crate::ir::block_at(m.program.blocks, m.block) == Some(b),
        m.pc >= 0,
    ensures
        ({
            let site = interpreter::site_of(m);
            let seen = machine::visits_at(m, site);
            let work = machine::demanded(
                m.env,
                b.instructions[m.pc],
                hash,
                site,
                DynamicPathV { path: m.path.digest, transitions: m.path.transitions, visit: seen },
            );
            let step = machine::stepped(m, hash);
            &&& m.pc < b.instructions.len() ==> match work {
                Ok(WorkV::Bind(out, v)) => step matches Ok(StepV::Moved(x)) && x.pc == m.pc + 1
                    && x.block == m.block && json::lookup(x.env, out) == Some(v) && x.path == m.path,
                Ok(WorkV::Effect(e)) => step matches Ok(StepV::Effect(x, f)) && f == e && x.env
                    == m.env && x.pc == m.pc,
                Err(e) => step == Err::<StepV, RunErrorV>(e),
            }
            &&& m.pc >= b.instructions.len() ==> match machine::transferred(m, b.terminator) {
                Ok(TransferV::Return(v)) => step == Ok::<StepV, RunErrorV>(StepV::Complete(v)),
                Ok(TransferV::Goto(x)) => step == Ok::<StepV, RunErrorV>(StepV::Moved(x)),
                Err(e) => step == Err::<StepV, RunErrorV>(e),
            }
        }),
{
    reveal(machine::stepped);
    if m.pc < b.instructions.len() {
        let site = interpreter::site_of(m);
        if let Ok(WorkV::Bind(out, v)) = machine::demanded(
            m.env,
            b.instructions[m.pc],
            hash,
            site,
            crate::effect::path_at(m.path, machine::visits_at(m, site)),
        ) {
            json::put_then_lookup(m.env, out, v);
        }
    }
}

/// A machine in a block that is not there does nothing.
pub proof fn missing_blocks_stop_a_machine(m: MachineV, hash: Seq<char>)
    requires
        crate::ir::block_at(m.program.blocks, m.block) is None,
    ensures
        machine::stepped(m, hash) == Err::<StepV, RunErrorV>(
            RunErrorV::UnknownBlock(crate::ir::BlockId(m.block)),
        ),
{
    reveal(machine::stepped);
}

} // verus!
