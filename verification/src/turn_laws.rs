//! What an agent loop does in a turn, whatever the model said: when it ends,
//! when it carries out calls, when it urges the model on, and what its turn
//! budget allows.
use crate::codec;
use crate::driver;
use crate::eval;
use crate::interpreter;
use crate::ir;
use crate::ir::{EffectErrorMode, ExprV, SourceKind, StoreOp, TerminatorV};
use crate::ir_agent;
use crate::ir_agent::LoopShapeV;
use crate::ir_vars;
use crate::json;
use crate::json::{Fields, JsonV};
use crate::loop_laws;
use crate::machine;
use crate::machine::{EffectV, MachineV, PromptSourceV, StepV};
use crate::op;
use crate::op::{ResponseV, CONTINUE_NUDGE};
use crate::run_laws;
use vstd::prelude::*;

verus! {

/// Whether a machine stands at an instruction of a loop.
pub open spec fn stands(m: MachineV, c: LoopShapeV, block: u32, pc: int) -> bool {
    m.program == ir_agent::loop_program(c) && m.block == block && m.pc == pc
}

/// Whether a variable holds a value.
pub open spec fn holds(m: MachineV, name: Seq<char>, v: JsonV) -> bool {
    json::lookup(m.env, name) == Some(v)
}

/// The machine after so many steps of which none is an effect or the end.
pub open spec fn quietly(m: MachineV, hash: Seq<char>, n: nat) -> Option<MachineV>
    decreases n,
{
    if n == 0 {
        Some(m)
    } else {
        match machine::stepped(m, hash) {
            Ok(StepV::Moved(x)) => quietly(x, hash, (n - 1) as nat),
            _ => None,
        }
    }
}

proof fn one_more(m: MachineV, hash: Seq<char>, n: nat, x: MachineV, y: MachineV)
    requires
        quietly(m, hash, n) == Some(x),
        machine::stepped(x, hash) == Ok::<StepV, machine::RunErrorV>(StepV::Moved(y)),
    ensures
        quietly(m, hash, n + 1) == Some(y),
    decreases n,
{
    if n == 0 {
        assert(quietly(y, hash, 0) == Some(y));
    } else {
        match machine::stepped(m, hash) {
            Ok(StepV::Moved(z)) => {
                one_more(z, hash, (n - 1) as nat, x, y);
            },
            _ => {},
        }
    }
}

broadcast proof fn read_after_put(f: Fields, key: Seq<char>, value: JsonV, other: Seq<char>)
    ensures
        #[trigger] json::lookup(json::put(f, key, value), other) == if other == key {
            Some(value)
        } else {
            json::lookup(f, other)
        },
{
    if other == key {
        json::put_then_lookup(f, key, value);
    } else {
        json::put_keeps_others(f, key, value, other);
    }
}

/// A loop on its way: where it started, and how many steps it took.
struct Way {
    start: MachineV,
    hash: Seq<char>,
    steps: nat,
    now: MachineV,
}

spec fn on_way(w: Way, c: LoopShapeV) -> bool {
    &&& quietly(w.start, w.hash, w.steps) == Some(w.now)
    &&& w.now.program == ir_agent::loop_program(c)
    &&& ir_agent::fits(c)
    &&& loop_laws::in_loop(c, w.now.block)
}

spec fn same_way(a: Way, b: Way) -> bool {
    a.start == b.start && a.hash == b.hash
}

proof fn bind(w: Way, c: LoopShapeV, out: Seq<char>, e: ExprV, v: JsonV) -> (r: Way)
    requires
        on_way(w, c),
        0 <= w.now.pc < ir_agent::block_under(c, w.now.block).instructions.len(),
        ir_agent::block_under(c, w.now.block).instructions[w.now.pc] == ir_agent::v_let(out, e),
        eval::eval(w.now.env, e) == Ok::<JsonV, eval::EvalErrorV>(v),
    ensures
        on_way(r, c),
        same_way(r, w),
        r.now.block == w.now.block,
        r.now.pc == w.now.pc + 1,
        r.now.env == json::put(w.now.env, out, v),
{
    reveal(machine::stepped);
    let m = w.now;
    loop_laws::loop_block_found(c, m.block);
    let site = crate::effect::EffectSite {
        block: ir::BlockId(m.block),
        instruction_index: m.pc as usize,
    };
    let x = machine::went_on(machine::visited(m, site), out, v);
    one_more(w.start, w.hash, w.steps, m, x);
    Way { steps: w.steps + 1, now: x, ..w }
}

proof fn branch(w: Way, c: LoopShapeV, cond: ExprV, yes: u32, no: u32, b: bool) -> (r: Way)
    requires
        on_way(w, c),
        w.now.pc == ir_agent::block_under(c, w.now.block).instructions.len(),
        ir_agent::block_under(c, w.now.block).terminator == ir_agent::v_branch(cond, yes, no),
        eval::eval(w.now.env, cond) == Ok::<JsonV, eval::EvalErrorV>(JsonV::Bool(b)),
        loop_laws::in_loop(c, if b { yes } else { no }),
        ir_agent::block_under(c, if b { yes } else { no }).params.len() == 0,
    ensures
        on_way(r, c),
        same_way(r, w),
        r.now.block == if b { yes } else { no },
        r.now.pc == 0,
        r.now.env == w.now.env,
{
    reveal(machine::stepped);
    let m = w.now;
    let to = if b {
        yes
    } else {
        no
    };
    loop_laws::loop_block_found(c, m.block);
    loop_laws::loop_block_found(c, to);
    let args: Seq<ExprV> = Seq::empty();
    let x = MachineV {
        block: to,
        pc: 0,
        env: m.env,
        path: crate::effect::transitioned(
            m.path,
            m.block,
            if b {
                0
            } else {
                1
            },
            to,
        ),
        ..m
    };
    assert(machine::bound(m.env, ir_agent::block_under(c, to).params, args, 0) == Ok::<
        Fields,
        eval::EvalErrorV,
    >(m.env));
    one_more(w.start, w.hash, w.steps, m, x);
    Way { steps: w.steps + 1, now: x, ..w }
}

/// A branch that hands something over on one side.
proof fn fork(
    w: Way,
    c: LoopShapeV,
    cond: ExprV,
    yes: u32,
    args: Seq<ExprV>,
    no: u32,
    b: bool,
    env: Fields,
) -> (r: Way)
    requires
        on_way(w, c),
        w.now.pc == ir_agent::block_under(c, w.now.block).instructions.len(),
        ir_agent::block_under(c, w.now.block).terminator == (TerminatorV::If {
            cond,
            then_block: yes,
            then_args: args,
            else_block: no,
            else_args: Seq::empty(),
        }),
        eval::eval(w.now.env, cond) == Ok::<JsonV, eval::EvalErrorV>(JsonV::Bool(b)),
        loop_laws::in_loop(c, if b { yes } else { no }),
        ir_agent::block_under(c, if b { yes } else { no }).params.len() == if b {
            args.len()
        } else {
            0
        },
        b ==> machine::bound(w.now.env, ir_agent::block_under(c, yes).params, args, args.len())
            == Ok::<Fields, eval::EvalErrorV>(env),
        !b ==> env == w.now.env,
    ensures
        on_way(r, c),
        same_way(r, w),
        r.now.block == if b { yes } else { no },
        r.now.pc == 0,
        r.now.env == env,
{
    reveal(machine::stepped);
    let m = w.now;
    let to = if b {
        yes
    } else {
        no
    };
    loop_laws::loop_block_found(c, m.block);
    loop_laws::loop_block_found(c, to);
    let none: Seq<ExprV> = Seq::empty();
    let x = MachineV {
        block: to,
        pc: 0,
        env,
        path: crate::effect::transitioned(
            m.path,
            m.block,
            if b {
                0
            } else {
                1
            },
            to,
        ),
        ..m
    };
    assert(machine::bound(m.env, ir_agent::block_under(c, no).params, none, 0) == Ok::<
        Fields,
        eval::EvalErrorV,
    >(m.env));
    one_more(w.start, w.hash, w.steps, m, x);
    Way { steps: w.steps + 1, now: x, ..w }
}

proof fn jump(w: Way, c: LoopShapeV, to: u32, args: Seq<ExprV>, env: Fields) -> (r: Way)
    requires
        on_way(w, c),
        w.now.pc == ir_agent::block_under(c, w.now.block).instructions.len(),
        ir_agent::block_under(c, w.now.block).terminator == (TerminatorV::Goto { block: to, args }),
        loop_laws::in_loop(c, to),
        ir_agent::block_under(c, to).params.len() == args.len(),
        machine::bound(w.now.env, ir_agent::block_under(c, to).params, args, args.len()) == Ok::<
            Fields,
            eval::EvalErrorV,
        >(env),
    ensures
        on_way(r, c),
        same_way(r, w),
        r.now.block == to,
        r.now.pc == 0,
        r.now.env == env,
{
    reveal(machine::stepped);
    let m = w.now;
    loop_laws::loop_block_found(c, m.block);
    loop_laws::loop_block_found(c, to);
    let x = MachineV {
        block: to,
        pc: 0,
        env,
        path: crate::effect::transitioned(m.path, m.block, 0, to),
        ..m
    };
    one_more(w.start, w.hash, w.steps, m, x);
    Way { steps: w.steps + 1, now: x, ..w }
}

proof fn finish(w: Way, c: LoopShapeV, e: ExprV, v: JsonV)
    requires
        on_way(w, c),
        w.now.pc == ir_agent::block_under(c, w.now.block).instructions.len(),
        ir_agent::block_under(c, w.now.block).terminator == (TerminatorV::Return { value: e }),
        eval::eval(w.now.env, e) == Ok::<JsonV, eval::EvalErrorV>(v),
    ensures
        machine::stepped(w.now, w.hash) == Ok::<StepV, machine::RunErrorV>(StepV::Complete(v)),
{
    reveal(machine::stepped);
    loop_laws::loop_block_found(c, w.now.block);
}

spec fn gives(env: Fields, e: ExprV, v: JsonV) -> bool {
    eval::eval(env, e) == Ok::<JsonV, eval::EvalErrorV>(v)
}

proof fn eq_gives(env: Fields, a: ExprV, b: ExprV, x: JsonV, y: JsonV)
    requires
        gives(env, a, x),
        gives(env, b, y),
    ensures
        gives(env, ir_agent::v_eq(a, b), JsonV::Bool(json::same(x, y))),
{
}

proof fn and_gives(env: Fields, a: ExprV, b: ExprV, x: bool, y: bool)
    requires
        gives(env, a, JsonV::Bool(x)),
        gives(env, b, JsonV::Bool(y)),
    ensures
        gives(env, ir_agent::v_and(a, b), JsonV::Bool(x && y)),
{
}

proof fn or_gives(env: Fields, a: ExprV, b: ExprV, x: bool, y: bool)
    requires
        gives(env, a, JsonV::Bool(x)),
        gives(env, b, JsonV::Bool(y)),
    ensures
        gives(env, ir_agent::v_or(a, b), JsonV::Bool(x || y)),
{
}

/// The text under a key, or none.
pub open spec fn text_at(v: JsonV, key: Seq<char>) -> Seq<char> {
    match v.field(key) {
        Some(JsonV::Str(s)) => s,
        _ => ""@,
    }
}

proof fn argument_gives(env: Fields, base: Seq<char>, key: Seq<char>, v: JsonV)
    requires
        json::lookup(env, base) == Some(v),
    ensures
        gives(env, ir_agent::v_argument(base, key), JsonV::Str(text_at(v, key))),
{
    assert(gives(env, ir_agent::v_text(""@), JsonV::Str(""@)));
    let inner = ir_agent::v_field_or(base, key, ir_agent::v_text(""@));
    match v.field(key) {
        Some(x) => {
            assert(gives(env, inner, x));
        },
        None => {
            assert(gives(env, inner, JsonV::Str(""@)));
        },
    }
}

/// How long a name is, and how it begins and ends.
spec fn mark(s: Seq<char>) -> (nat, char, char) {
    (s.len(), s[0], s[s.len() - 1])
}

proof fn turn_names()
    ensures
        mark("history"@) == (7nat, 'h', 'y'),
        mark("content"@) == (7nat, 'c', 't'),
        mark("response"@) == (8nat, 'r', 'e'),
        mark("can_stop"@) == (8nat, 'c', 'p'),
        mark("turns_left"@) == (10nat, 't', 't'),
        mark("tool_calls"@) == (10nat, 't', 's'),
        mark("is_truncated"@) == (12nat, 'i', 'd'),
        mark("no_tool_calls"@) == (13nat, 'n', 's'),
        mark("finish_reason"@) == (13nat, 'f', 'n'),
        mark("not_truncated"@) == (13nat, 'n', 'd'),
        mark("no_turns_left"@) == (13nat, 'n', 't'),
        mark("should_return"@) == (13nat, 's', 'n'),
        mark("content_empty"@) == (13nat, 'c', 'y'),
        mark("has_pending_tool_calls"@) == (22nat, 'h', 's'),
        mark("no_pending_tool_calls"@) == (21nat, 'n', 's'),
        mark("i"@) == (1nat, 'i', 'i'),
        mark("history_with_assistant"@) == (22nat, 'h', 't'),
        mark("history_for_nudge"@) == (17nat, 'h', 'e'),
        mark("nudged_history"@) == (14nat, 'n', 'y'),
        mark("nudge_turns_left"@) == (16nat, 'n', 't'),
        mark("budget_response"@) == (15nat, 'b', 'e'),
        mark("next_turns_left"@) == (15nat, 'n', 't'),
        mark("keep_looping"@) == (12nat, 'k', 'g'),
{
    reveal_strlit("i");
    reveal_strlit("history_with_assistant");
    reveal_strlit("history_for_nudge");
    reveal_strlit("nudged_history");
    reveal_strlit("nudge_turns_left");
    reveal_strlit("budget_response");
    reveal_strlit("next_turns_left");
    reveal_strlit("keep_looping");
    reveal_strlit("history");
    reveal_strlit("content");
    reveal_strlit("response");
    reveal_strlit("can_stop");
    reveal_strlit("turns_left");
    reveal_strlit("tool_calls");
    reveal_strlit("is_truncated");
    reveal_strlit("no_tool_calls");
    reveal_strlit("finish_reason");
    reveal_strlit("not_truncated");
    reveal_strlit("no_turns_left");
    reveal_strlit("should_return");
    reveal_strlit("content_empty");
    reveal_strlit("has_pending_tool_calls");
    reveal_strlit("no_pending_tool_calls");
}

/// Why a response ended, or null.
pub open spec fn reason_of(r: JsonV) -> JsonV {
    match r.field("finish_reason"@) {
        Some(v) => v,
        None => JsonV::Null,
    }
}

/// Whether a response was cut off by its length.
pub open spec fn cut_off(r: JsonV) -> bool {
    reason_of(r) == JsonV::Str("length"@)
}

/// Whether a turn is over: no tool is called, nothing was cut off, and no call
/// of an earlier turn is open.
pub open spec fn turn_is_over(h: Seq<JsonV>, r: JsonV, calls: Seq<JsonV>) -> bool {
    calls.len() == 0 && !cut_off(r) && eval::pending_calls(h).len() == 0
}

/// What the first steps of a turn leave behind.
spec fn sorted_out(m: MachineV, h: Seq<JsonV>, n: int, r: JsonV, calls: Seq<JsonV>) -> bool {
    &&& holds(m, "history"@, JsonV::Array(h))
    &&& holds(m, "turns_left"@, JsonV::Int(n))
    &&& holds(m, "response"@, r)
    &&& holds(m, "tool_calls"@, JsonV::Array(calls))
    &&& holds(m, "no_tool_calls"@, JsonV::Bool(calls.len() == 0))
    &&& holds(m, "can_stop"@, JsonV::Bool(turn_is_over(h, r, calls)))
    &&& holds(m, "content"@, JsonV::Str(ir_agent::response_text(r)))
    &&& holds(m, "content_empty"@, JsonV::Bool(ir_agent::response_text(r).len() == 0))
}

/// What a turn starts from, once the model has answered.
pub open spec fn answered(
    m: MachineV,
    c: LoopShapeV,
    h: Seq<JsonV>,
    n: int,
    r: JsonV,
    calls: Seq<JsonV>,
) -> bool {
    &&& ir_agent::fits(c)
    &&& stands(m, c, 0, 1)
    &&& holds(m, "history"@, JsonV::Array(h))
    &&& holds(m, "turns_left"@, JsonV::Int(n))
    &&& 0 <= n <= i64::MAX
    &&& holds(m, "response"@, r)
    &&& r.field("tool_calls"@) == Some(JsonV::Array(calls))
}

#[verifier::rlimit(60)]
proof fn sort_out(
    m: MachineV,
    c: LoopShapeV,
    hash: Seq<char>,
    h: Seq<JsonV>,
    n: int,
    r: JsonV,
    calls: Seq<JsonV>,
) -> (w: Way)
    requires
        answered(m, c, h, n, r, calls),
    ensures
        on_way(w, c),
        w.start == m,
        w.hash == hash,
        w.now.pc == 0,
        w.now.block == if turn_is_over(h, r, calls) || n == 0 {
            16u32
        } else {
            14u32
        },
        sorted_out(w.now, h, n, r, calls),
{
    broadcast use read_after_put;

    turn_names();
    let w = Way { start: m, hash, steps: 0, now: m };
    let v = JsonV::Array(calls);
    let w = bind(w, c, "tool_calls"@, ir_agent::v_field("response"@, "tool_calls"@), v);
    let none = calls.len() == 0;
    let w = bind(w, c, "no_tool_calls"@, ir_agent::v_is_empty("tool_calls"@), JsonV::Bool(none));
    let e = ir_agent::v_field_or("response"@, "finish_reason"@, ir_agent::v_null());
    assert(gives(w.now.env, ir_agent::v_null(), JsonV::Null));
    let w = bind(w, c, "finish_reason"@, e, reason_of(r));
    let cut = cut_off(r);
    let why = ir_agent::v_var("finish_reason"@);
    let length = JsonV::Str("length"@);
    eq_gives(w.now.env, why, ir_agent::v_text("length"@), reason_of(r), length);
    assert(json::same(reason_of(r), length) == cut);
    let e = ir_agent::v_eq(why, ir_agent::v_text("length"@));
    let w = bind(w, c, "is_truncated"@, e, JsonV::Bool(cut));
    let no = ir_agent::v_flag(false);
    let x = ir_agent::v_var("is_truncated"@);
    eq_gives(w.now.env, x, no, JsonV::Bool(cut), JsonV::Bool(false));
    let w = bind(w, c, "not_truncated"@, ir_agent::v_eq(x, no), JsonV::Bool(!cut));
    let open = eval::pending_calls(h).len() > 0;
    let e = ir_agent::v_pending("history"@);
    let w = bind(w, c, "has_pending_tool_calls"@, e, JsonV::Bool(open));
    let x = ir_agent::v_var("has_pending_tool_calls"@);
    eq_gives(w.now.env, x, no, JsonV::Bool(open), JsonV::Bool(false));
    let w = bind(w, c, "no_pending_tool_calls"@, ir_agent::v_eq(x, no), JsonV::Bool(!open));
    let over = turn_is_over(h, r, calls);
    let x = ir_agent::v_var("no_tool_calls"@);
    let y = ir_agent::v_var("not_truncated"@);
    let z = ir_agent::v_var("no_pending_tool_calls"@);
    and_gives(w.now.env, x, y, none, !cut);
    and_gives(w.now.env, ir_agent::v_and(x, y), z, none && !cut, !open);
    let e = ir_agent::v_and(ir_agent::v_and(x, y), z);
    let w = bind(w, c, "can_stop"@, e, JsonV::Bool(over));
    let x = ir_agent::v_var("turns_left"@);
    eq_gives(w.now.env, x, ir_agent::v_int(0), JsonV::Int(n), JsonV::Int(0));
    let e = ir_agent::v_eq(x, ir_agent::v_int(0));
    let w = bind(w, c, "no_turns_left"@, e, JsonV::Bool(n == 0));
    let x = ir_agent::v_var("can_stop"@);
    let y = ir_agent::v_var("no_turns_left"@);
    or_gives(w.now.env, x, y, over, n == 0);
    let w = bind(w, c, "should_return"@, ir_agent::v_or(x, y), JsonV::Bool(over || n == 0));
    let said = ir_agent::response_text(r);
    argument_gives(w.now.env, "response"@, "content"@, r);
    assert(text_at(r, "content"@) =~= said) by {
        reveal_strlit("");
    }
    let w = bind(w, c, "content"@, ir_agent::v_argument("response"@, "content"@), JsonV::Str(said));
    let empty = said.len() == 0;
    let w = bind(w, c, "content_empty"@, ir_agent::v_is_empty("content"@), JsonV::Bool(empty));
    branch(w, c, ir_agent::v_var("should_return"@), 16, 14, over || n == 0)
}

proof fn field_gives(
    env: Fields,
    items: Seq<(Seq<char>, ExprV)>,
    given: Fields,
    name: Seq<char>,
    e: ExprV,
    v: JsonV,
)
    requires
        eval::eval_fields(env, items) == Ok::<Fields, eval::EvalErrorV>(
            json::put_all(Seq::empty(), given),
        ),
        gives(env, e, v),
    ensures
        eval::eval_fields(env, items.push((name, e))) == Ok::<Fields, eval::EvalErrorV>(
            json::put_all(Seq::empty(), given.push((name, v))),
        ),
{
    assert(items.push((name, e)).drop_last() =~= items);
    assert(given.push((name, v)).drop_last() =~= given);
}

proof fn no_field_gives(env: Fields)
    ensures
        eval::eval_fields(env, Seq::empty()) == Ok::<Fields, eval::EvalErrorV>(
            json::put_all(Seq::empty(), Seq::empty()),
        ),
{
}

/// The message of a model that called tools.
pub open spec fn calling(content: Seq<char>, calls: Seq<JsonV>) -> JsonV {
    json::object(
        Seq::empty().push((
            "content"@,
            if content.len() == 0 {
                JsonV::Null
            } else {
                JsonV::Str(content)
            },
        )).push(("role"@, JsonV::Str("assistant"@))).push(("tool_calls"@, JsonV::Array(calls))),
    )
}

proof fn message_reads(role: Seq<char>, content: Seq<char>)
    ensures
        json::object(
            Seq::empty().push(("content"@, JsonV::Str(content))).push(("role"@, JsonV::Str(role))),
        ) == ir_agent::said(role, content),
{
    reveal_strlit("content");
    reveal_strlit("role");
    let empty: Fields = Seq::empty();
    let one = empty.push(("content"@, JsonV::Str(content)));
    let two = one.push(("role"@, JsonV::Str(role)));
    assert(two.drop_last() =~= one);
    assert(one.drop_last() =~= empty);
    assert(json::put_all(Seq::empty(), empty) == Seq::<(Seq<char>, JsonV)>::empty());
    assert(json::put_all(Seq::empty(), one) =~= one);
    assert("content"@[0] == 'c' && "role"@[0] == 'r');
    assert(!crate::text::text_lt("role"@, "content"@));
    assert(one.drop_first() =~= empty);
    assert(json::put(empty, "role"@, JsonV::Str(role)) == seq![("role"@, JsonV::Str(role))]);
    assert(json::put(one, "role"@, JsonV::Str(role)) =~= two);
    assert(two =~= seq![("content"@, JsonV::Str(content)), ("role"@, JsonV::Str(role))]);
}

/// The history with what a model said, if anything, and a word to go on.
pub open spec fn urged(h: Seq<JsonV>, content: Seq<char>) -> Seq<JsonV> {
    let said = if content.len() == 0 {
        h
    } else {
        h.push(ir_agent::said("assistant"@, content))
    };
    said.push(ir_agent::said("user"@, CONTINUE_NUDGE@))
}

/// A part of a response.
pub open spec fn part_of(r: JsonV, key: Seq<char>) -> JsonV {
    match r.field(key) {
        Some(v) => v,
        None => JsonV::Null,
    }
}

/// Whether a value has the parts that every response has.
pub open spec fn is_response(r: JsonV) -> bool {
    r.field("content"@) is Some && r.field("input_tokens"@) is Some && r.field("output_tokens"@)
        is Some && r.field("total_tokens"@) is Some && r.field("tool_calls"@) is Some
}

/// A response with the note that the turn budget was spent.
pub open spec fn noted(r: JsonV) -> JsonV {
    json::object(
        Seq::empty().push(("content"@, part_of(r, "content"@))).push((
            "finish_reason"@,
            reason_of(r),
        )).push(("input_tokens"@, part_of(r, "input_tokens"@))).push((
            "metadata"@,
            json::object(
                Seq::empty().push(("stop_reason"@, JsonV::Str("turn_budget_exhausted"@))),
            ),
        )).push(("output_tokens"@, part_of(r, "output_tokens"@))).push((
            "tool_calls"@,
            part_of(r, "tool_calls"@),
        )).push(("total_tokens"@, part_of(r, "total_tokens"@))),
    )
}

/// What becomes of a turn.
pub enum TurnV {
    /// The loop ends with a value.
    Ends(JsonV),
    /// The calls of the model are carried out, from a history on.
    Calls(Seq<JsonV>),
    /// The model is urged on: a new turn, from a history on.
    Urged(Seq<JsonV>),
}

/// What becomes of a turn: one that is over ends the loop with the response as
/// it is, one without budget ends it with a note, calls are carried out, and
/// a model that stalled is urged on.
pub open spec fn turn_of(h: Seq<JsonV>, n: int, r: JsonV, calls: Seq<JsonV>) -> TurnV {
    if turn_is_over(h, r, calls) {
        TurnV::Ends(r)
    } else if n == 0 {
        TurnV::Ends(noted(r))
    } else if calls.len() > 0 {
        TurnV::Calls(h.push(calling(ir_agent::response_text(r), calls)))
    } else {
        TurnV::Urged(urged(h, ir_agent::response_text(r)))
    }
}

/// Whether a machine stands at the start of a turn.
pub open spec fn turn_starts(m: MachineV, c: LoopShapeV, h: Seq<JsonV>, n: int) -> bool {
    stands(m, c, 0, 0) && holds(m, "history"@, JsonV::Array(h)) && holds(
        m,
        "turns_left"@,
        JsonV::Int(n),
    )
}

/// Whether a machine stands before the call at a place.
pub open spec fn before_call(
    m: MachineV,
    c: LoopShapeV,
    h: Seq<JsonV>,
    calls: Seq<JsonV>,
    i: int,
    n: int,
) -> bool {
    &&& stands(m, c, 3, 0)
    &&& holds(m, "history"@, JsonV::Array(h))
    &&& holds(m, "tool_calls"@, JsonV::Array(calls))
    &&& holds(m, "i"@, JsonV::Int(i))
    &&& holds(m, "turns_left"@, JsonV::Int(n))
}

/// Whether a machine is where a turn leads.
pub open spec fn led(
    x: MachineV,
    c: LoopShapeV,
    hash: Seq<char>,
    turn: TurnV,
    n: int,
    calls: Seq<JsonV>,
) -> bool {
    match turn {
        TurnV::Ends(v) => machine::stepped(x, hash) == Ok::<StepV, machine::RunErrorV>(
            StepV::Complete(v),
        ),
        TurnV::Calls(h) => before_call(x, c, h, calls, 0, n),
        TurnV::Urged(h) => turn_starts(x, c, h, n - 1),
    }
}

/// Whether a machine gets where a turn leads, without an effect on the way.
pub open spec fn leads(
    m: MachineV,
    c: LoopShapeV,
    hash: Seq<char>,
    turn: TurnV,
    n: int,
    calls: Seq<JsonV>,
) -> bool {
    exists|k: nat|
        (#[trigger] quietly(m, hash, k)) is Some && led(
            quietly(m, hash, k)->0,
            c,
            hash,
            turn,
            n,
            calls,
        )
}

proof fn bound_two(env: Fields, params: Seq<Seq<char>>, args: Seq<ExprV>, x: JsonV, y: JsonV)
    requires
        params.len() == 2,
        args.len() == 2,
        gives(env, args[0], x),
        gives(env, args[1], y),
    ensures
        machine::bound(env, params, args, 2) == Ok::<Fields, eval::EvalErrorV>(
            json::put(json::put(env, params[0], x), params[1], y),
        ),
{
    assert(machine::bound(env, params, args, 0) == Ok::<Fields, eval::EvalErrorV>(env));
    assert(machine::bound(env, params, args, 1) == Ok::<Fields, eval::EvalErrorV>(
        json::put(env, params[0], x),
    ));
}

proof fn bound_four(
    env: Fields,
    params: Seq<Seq<char>>,
    args: Seq<ExprV>,
    x: JsonV,
    y: JsonV,
    z: JsonV,
    u: JsonV,
)
    requires
        params.len() == 4,
        args.len() == 4,
        gives(env, args[0], x),
        gives(env, args[1], y),
        gives(env, args[2], z),
        gives(env, args[3], u),
    ensures
        machine::bound(env, params, args, 4) == Ok::<Fields, eval::EvalErrorV>(
            json::put(
                json::put(json::put(json::put(env, params[0], x), params[1], y), params[2], z),
                params[3],
                u,
            ),
        ),
{
    assert(machine::bound(env, params, args, 0) == Ok::<Fields, eval::EvalErrorV>(env));
    assert(machine::bound(env, params, args, 1) == Ok::<Fields, eval::EvalErrorV>(
        json::put(env, params[0], x),
    ));
    assert(machine::bound(env, params, args, 2) == Ok::<Fields, eval::EvalErrorV>(
        json::put(json::put(env, params[0], x), params[1], y),
    ));
    assert(machine::bound(env, params, args, 3) == Ok::<Fields, eval::EvalErrorV>(
        json::put(json::put(json::put(env, params[0], x), params[1], y), params[2], z),
    ));
}

proof fn minus_gives(env: Fields, a: ExprV, n: int)
    requires
        gives(env, a, JsonV::Int(n)),
        i64::MIN < n <= i64::MAX,
    ensures
        gives(env, ir_agent::v_minus(a, ir_agent::v_int(1)), JsonV::Int(n - 1)),
{
    assert(gives(env, ir_agent::v_int(1), JsonV::Int(1)));
}

proof fn prepare(w: Way, c: LoopShapeV, h: Seq<JsonV>, n: int, r: JsonV, calls: Seq<JsonV>) -> (x:
    Way)
    requires
        on_way(w, c),
        w.now.block == 2 && w.now.pc == 0,
        sorted_out(w.now, h, n, r, calls),
        r.field("tool_calls"@) == Some(JsonV::Array(calls)),
    ensures
        on_way(x, c),
        same_way(x, w),
        before_call(
            x.now,
            c,
            h.push(calling(ir_agent::response_text(r), calls)),
            calls,
            0,
            n,
        ),
{
    broadcast use read_after_put;

    turn_names();
    let env = w.now.env;
    let said = ir_agent::response_text(r);
    let content = ir_agent::v_if(
        ir_agent::v_var("content_empty"@),
        ir_agent::v_null(),
        ir_agent::v_var("content"@),
    );
    let shown = if said.len() == 0 {
        JsonV::Null
    } else {
        JsonV::Str(said)
    };
    assert(gives(env, ir_agent::v_null(), JsonV::Null));
    assert(gives(env, ir_agent::v_var("content"@), JsonV::Str(said)));
    assert(gives(env, ir_agent::v_var("content_empty"@), JsonV::Bool(said.len() == 0)));
    assert(gives(env, content, shown));
    let items: Seq<(Seq<char>, ExprV)> = Seq::empty();
    let f: Fields = Seq::empty();
    no_field_gives(env);
    field_gives(env, items, f, "content"@, content, shown);
    let items = items.push(("content"@, content));
    let f = f.push(("content"@, shown));
    let role = ir_agent::v_text("assistant"@);
    field_gives(env, items, f, "role"@, role, JsonV::Str("assistant"@));
    let items = items.push(("role"@, role));
    let f = f.push(("role"@, JsonV::Str("assistant"@)));
    let list = ir_agent::v_field("response"@, "tool_calls"@);
    field_gives(env, items, f, "tool_calls"@, list, JsonV::Array(calls));
    let items = items.push(("tool_calls"@, list));
    let f = f.push(("tool_calls"@, JsonV::Array(calls)));
    let message = calling(said, calls);
    assert(gives(env, ExprV::Object(items), message));
    let after = h.push(message);
    let e = ir_agent::v_push("history"@, ExprV::Object(items));
    let w = bind(w, c, "history_with_assistant"@, e, JsonV::Array(after));
    let args = Seq::empty().push(ir_agent::v_var("history_with_assistant"@)).push(
        ir_agent::v_var("tool_calls"@),
    ).push(ir_agent::v_int(0)).push(ir_agent::v_var("turns_left"@));
    bound_four(
        w.now.env,
        ir_agent::loop_block().params,
        args,
        JsonV::Array(after),
        JsonV::Array(calls),
        JsonV::Int(0),
        JsonV::Int(n),
    );
    let env = json::put(
        json::put(
            json::put(
                json::put(w.now.env, "history"@, JsonV::Array(after)),
                "tool_calls"@,
                JsonV::Array(calls),
            ),
            "i"@,
            JsonV::Int(0),
        ),
        "turns_left"@,
        JsonV::Int(n),
    );
    jump(w, c, 3, args, env)
}

proof fn urge(w: Way, c: LoopShapeV, h: Seq<JsonV>, n: int, r: JsonV, calls: Seq<JsonV>) -> (x: Way)
    requires
        on_way(w, c),
        w.now.block == 15 && w.now.pc == 0,
        sorted_out(w.now, h, n, r, calls),
        0 <= n <= i64::MAX,
    ensures
        on_way(x, c),
        same_way(x, w),
        turn_starts(x.now, c, urged(h, ir_agent::response_text(r)), n - 1),
{
    broadcast use read_after_put;

    turn_names();
    let env = w.now.env;
    let said = ir_agent::response_text(r);
    let items: Seq<(Seq<char>, ExprV)> = Seq::empty();
    let f: Fields = Seq::empty();
    no_field_gives(env);
    let content = ir_agent::v_var("content"@);
    assert(gives(env, content, JsonV::Str(said)));
    field_gives(env, items, f, "content"@, content, JsonV::Str(said));
    let role = ir_agent::v_text("assistant"@);
    let items = items.push(("content"@, content));
    let f = f.push(("content"@, JsonV::Str(said)));
    field_gives(env, items, f, "role"@, role, JsonV::Str("assistant"@));
    let items = items.push(("role"@, role));
    message_reads("assistant"@, said);
    assert(gives(env, ExprV::Object(items), ir_agent::said("assistant"@, said)));
    let more = ir_agent::v_push("history"@, ExprV::Object(items));
    assert(gives(env, more, JsonV::Array(h.push(ir_agent::said("assistant"@, said)))));
    assert(gives(env, ir_agent::v_var("content_empty"@), JsonV::Bool(said.len() == 0)));
    assert(gives(env, ir_agent::v_var("history"@), JsonV::Array(h)));
    let e = ir_agent::v_if(
        ir_agent::v_var("content_empty"@),
        ir_agent::v_var("history"@),
        more,
    );
    let before = if said.len() == 0 {
        h
    } else {
        h.push(ir_agent::said("assistant"@, said))
    };
    let w = bind(w, c, "history_for_nudge"@, e, JsonV::Array(before));
    let env = w.now.env;
    let items: Seq<(Seq<char>, ExprV)> = Seq::empty();
    let f: Fields = Seq::empty();
    no_field_gives(env);
    let content = ir_agent::v_text(CONTINUE_NUDGE@);
    field_gives(env, items, f, "content"@, content, JsonV::Str(CONTINUE_NUDGE@));
    let role = ir_agent::v_text("user"@);
    let items = items.push(("content"@, content));
    let f = f.push(("content"@, JsonV::Str(CONTINUE_NUDGE@)));
    field_gives(env, items, f, "role"@, role, JsonV::Str("user"@));
    let items = items.push(("role"@, role));
    message_reads("user"@, CONTINUE_NUDGE@);
    assert(gives(env, ExprV::Object(items), ir_agent::said("user"@, CONTINUE_NUDGE@)));
    let e = ir_agent::v_push("history_for_nudge"@, ExprV::Object(items));
    let after = urged(h, said);
    let w = bind(w, c, "nudged_history"@, e, JsonV::Array(after));
    let left = ir_agent::v_var("turns_left"@);
    assert(gives(w.now.env, left, JsonV::Int(n)));
    minus_gives(w.now.env, left, n);
    let e = ir_agent::v_minus(left, ir_agent::v_int(1));
    let w = bind(w, c, "nudge_turns_left"@, e, JsonV::Int(n - 1));
    let args = Seq::empty().push(ir_agent::v_var("nudged_history"@)).push(
        ir_agent::v_var("nudge_turns_left"@),
    );
    bound_two(
        w.now.env,
        ir_agent::entry_block(c.model).params,
        args,
        JsonV::Array(after),
        JsonV::Int(n - 1),
    );
    let env = json::put(
        json::put(w.now.env, "history"@, JsonV::Array(after)),
        "turns_left"@,
        JsonV::Int(n - 1),
    );
    jump(w, c, 0, args, env)
}

proof fn note_budget(w: Way, c: LoopShapeV, r: JsonV) -> (x: Way)
    requires
        on_way(w, c),
        w.now.block == 17 && w.now.pc == 0,
        holds(w.now, "response"@, r),
        is_response(r),
    ensures
        on_way(x, c),
        same_way(x, w),
        machine::stepped(x.now, x.hash) == Ok::<StepV, machine::RunErrorV>(
            StepV::Complete(noted(r)),
        ),
{
    broadcast use read_after_put;

    turn_names();
    let env = w.now.env;
    let why = "turn_budget_exhausted"@;
    let inner: Seq<(Seq<char>, ExprV)> = Seq::empty();
    let g: Fields = Seq::empty();
    no_field_gives(env);
    field_gives(env, inner, g, "stop_reason"@, ir_agent::v_text(why), JsonV::Str(why));
    let inner = inner.push(("stop_reason"@, ir_agent::v_text(why)));
    let g = g.push(("stop_reason"@, JsonV::Str(why)));
    let metadata = json::object(g);
    assert(gives(env, ExprV::Object(inner), metadata));

    let items: Seq<(Seq<char>, ExprV)> = Seq::empty();
    let f: Fields = Seq::empty();
    let e = ir_agent::v_field("response"@, "content"@);
    let v = part_of(r, "content"@);
    field_gives(env, items, f, "content"@, e, v);
    let items = items.push(("content"@, e));
    let f = f.push(("content"@, v));
    let e = ir_agent::v_field_or("response"@, "finish_reason"@, ir_agent::v_null());
    assert(gives(env, ir_agent::v_null(), JsonV::Null));
    field_gives(env, items, f, "finish_reason"@, e, reason_of(r));
    let items = items.push(("finish_reason"@, e));
    let f = f.push(("finish_reason"@, reason_of(r)));
    let e = ir_agent::v_field("response"@, "input_tokens"@);
    let v = part_of(r, "input_tokens"@);
    field_gives(env, items, f, "input_tokens"@, e, v);
    let items = items.push(("input_tokens"@, e));
    let f = f.push(("input_tokens"@, v));
    field_gives(env, items, f, "metadata"@, ExprV::Object(inner), metadata);
    let items = items.push(("metadata"@, ExprV::Object(inner)));
    let f = f.push(("metadata"@, metadata));
    let e = ir_agent::v_field("response"@, "output_tokens"@);
    let v = part_of(r, "output_tokens"@);
    field_gives(env, items, f, "output_tokens"@, e, v);
    let items = items.push(("output_tokens"@, e));
    let f = f.push(("output_tokens"@, v));
    let e = ir_agent::v_field("response"@, "tool_calls"@);
    let v = part_of(r, "tool_calls"@);
    field_gives(env, items, f, "tool_calls"@, e, v);
    let items = items.push(("tool_calls"@, e));
    let f = f.push(("tool_calls"@, v));
    let e = ir_agent::v_field("response"@, "total_tokens"@);
    let v = part_of(r, "total_tokens"@);
    field_gives(env, items, f, "total_tokens"@, e, v);
    let items = items.push(("total_tokens"@, e));
    let f = f.push(("total_tokens"@, v));
    assert(gives(env, ExprV::Object(items), noted(r)));
    let w = bind(w, c, "budget_response"@, ExprV::Object(items), noted(r));
    finish(w, c, ir_agent::v_var("budget_response"@), noted(r));
    w
}

/// What becomes of a turn is decided by the calls in the response, by whether
/// it was cut off, by the calls that are still open and by the turn budget:
/// no other reason to stop that a model gives ends a turn, and no call goes
/// unheard while there is budget.
pub proof fn turns_are_decided_by_calls(
    m: MachineV,
    c: LoopShapeV,
    hash: Seq<char>,
    h: Seq<JsonV>,
    n: int,
    r: JsonV,
    calls: Seq<JsonV>,
)
    requires
        answered(m, c, h, n, r, calls),
        is_response(r),
    ensures
        leads(m, c, hash, turn_of(h, n, r, calls), n, calls),
{
    let turn = turn_of(h, n, r, calls);
    let over = turn_is_over(h, r, calls);
    let w = sort_out(m, c, hash, h, n, r, calls);
    let x = if over || n == 0 {
        let w = branch(w, c, ir_agent::v_var("can_stop"@), 1, 17, over);
        if over {
            finish(w, c, ir_agent::v_var("response"@), r);
            w
        } else {
            note_budget(w, c, r)
        }
    } else {
        let none = calls.len() == 0;
        let w = branch(w, c, ir_agent::v_var("no_tool_calls"@), 15, 2, none);
        if none {
            urge(w, c, h, n, r, calls)
        } else {
            prepare(w, c, h, n, r, calls)
        }
    };
    assert(quietly(m, hash, x.steps) == Some(x.now));
    assert(led(x.now, c, hash, turn, n, calls));
}

proof fn call_names()
    ensures
        mark("history"@) == (7nat, 'h', 'y'),
        mark("tool_calls"@) == (10nat, 't', 's'),
        mark("i"@) == (1nat, 'i', 'i'),
        mark("turns_left"@) == (10nat, 't', 't'),
        mark("keep_looping"@) == (12nat, 'k', 'g'),
        mark("next_turns_left"@) == (15nat, 'n', 't'),
        mark("call"@) == (4nat, 'c', 'l'),
        mark("function_name"@) == (13nat, 'f', 'e'),
        mark("arguments"@) == (9nat, 'a', 's'),
        mark("is_infer_tool"@) == (13nat, 'i', 'l'),
        mark("is_shell_tool"@) == (13nat, 'i', 'l'),
        mark("command"@) == (7nat, 'c', 'd'),
        mark("missing_command"@) == (15nat, 'm', 'd'),
        mark("infer_model"@) == (11nat, 'i', 'l'),
        mark("infer_prompt_text"@) == (17nat, 'i', 't'),
        mark("missing_infer_model"@) == (19nat, 'm', 'l'),
        mark("missing_infer_prompt"@) == (20nat, 'm', 't'),
        mark("invalid_infer_arguments"@) == (23nat, 'i', 's'),
        mark("infer_context"@) == (13nat, 'i', 't'),
        mark("missing_refs"@) == (12nat, 'm', 's'),
        mark("refs_resolved"@) == (13nat, 'r', 'd'),
        mark("refs_unresolved"@) == (15nat, 'r', 'd'),
        mark("infer_refused"@) == (13nat, 'i', 'd'),
        mark("infer_refusal"@) == (13nat, 'i', 'l'),
        mark("infer_prompt"@) == (12nat, 'i', 't'),
        mark("infer_result"@) == (12nat, 'i', 't'),
        mark("infer_content"@) == (13nat, 'i', 't'),
        mark("infer_content_empty"@) == (19nat, 'i', 'y'),
        mark("tool_content"@) == (12nat, 't', 't'),
        mark("tool_message"@) == (12nat, 't', 'e'),
        mark("next_history"@) == (12nat, 'n', 'y'),
        mark("next_i"@) == (6nat, 'n', 'i'),
        mark("invalid_message"@) == (15nat, 'i', 'e'),
        mark("eval_result"@) == (11nat, 'e', 't'),
        mark("is_remember_tool"@) == (16nat, 'i', 'l'),
        mark("memory_name"@) == (11nat, 'm', 'e'),
        mark("memory_content"@) == (14nat, 'm', 't'),
        mark("missing_memory_content"@) == (22nat, 'm', 't'),
        mark("is_recall_tool"@) == (14nat, 'i', 'l'),
        mark("recall_query"@) == (12nat, 'r', 'y'),
        mark("missing_recall_query"@) == (20nat, 'm', 'y'),
        mark("memory_item"@) == (11nat, 'm', 'm'),
        mark("stored_id"@) == (9nat, 's', 'd'),
        mark("recall_hits"@) == (11nat, 'r', 's'),
        mark("is_native_tool"@) == (14nat, 'i', 'l'),
        mark("native_tool_result"@) == (18nat, 'n', 't'),
{
    reveal_strlit("history");
    reveal_strlit("tool_calls");
    reveal_strlit("i");
    reveal_strlit("turns_left");
    reveal_strlit("keep_looping");
    reveal_strlit("next_turns_left");
    reveal_strlit("call");
    reveal_strlit("function_name");
    reveal_strlit("arguments");
    reveal_strlit("is_infer_tool");
    reveal_strlit("is_shell_tool");
    reveal_strlit("command");
    reveal_strlit("missing_command");
    reveal_strlit("infer_model");
    reveal_strlit("infer_prompt_text");
    reveal_strlit("missing_infer_model");
    reveal_strlit("missing_infer_prompt");
    reveal_strlit("invalid_infer_arguments");
    reveal_strlit("infer_context");
    reveal_strlit("missing_refs");
    reveal_strlit("refs_resolved");
    reveal_strlit("refs_unresolved");
    reveal_strlit("infer_refused");
    reveal_strlit("infer_refusal");
    reveal_strlit("infer_prompt");
    reveal_strlit("infer_result");
    reveal_strlit("infer_content");
    reveal_strlit("infer_content_empty");
    reveal_strlit("tool_content");
    reveal_strlit("tool_message");
    reveal_strlit("next_history");
    reveal_strlit("next_i");
    reveal_strlit("invalid_message");
    reveal_strlit("eval_result");
    reveal_strlit("is_remember_tool");
    reveal_strlit("memory_name");
    reveal_strlit("memory_content");
    reveal_strlit("missing_memory_content");
    reveal_strlit("is_recall_tool");
    reveal_strlit("recall_query");
    reveal_strlit("missing_recall_query");
    reveal_strlit("memory_item");
    reveal_strlit("stored_id");
    reveal_strlit("recall_hits");
    reveal_strlit("is_native_tool");
    reveal_strlit("native_tool_result");
}

/// What a call comes with.
pub open spec fn arguments_of(call: JsonV) -> JsonV {
    match call.field("arguments"@) {
        Some(v) => v,
        None => JsonV::Object(Seq::empty()),
    }
}

/// What becomes of a call.
pub enum CallV {
    /// A command is run.
    Command(Seq<char>),
    /// A model is asked, without tools, about earlier results.
    Child { model: Seq<char>, prompt: Seq<char>, context: Seq<JsonV> },
    /// A memory is written.
    Remember(JsonV),
    /// Memories are looked for.
    Recall(Seq<char>),
    /// A native tool is called.
    Native { name: Seq<char>, arguments: JsonV },
    /// The call is answered with a complaint.
    Refused(JsonV),
}

/// The answer to an inference with references that lead nowhere.
pub open spec fn unresolved(missing: Seq<JsonV>) -> JsonV {
    json::object(
        Seq::empty().push(("error"@, JsonV::Str("unresolved_context_refs"@))).push((
            "message"@,
            JsonV::Str("context_refs must name results of earlier tool calls"@),
        )).push(("missing"@, JsonV::Array(missing))).push(("ok"@, JsonV::Bool(false))),
    )
}

/// The references to earlier results that a call makes.  What is no list is
/// one reference.
pub open spec fn references_of(a: JsonV) -> Seq<JsonV> {
    match a.field("context_refs"@) {
        Some(JsonV::Array(items)) => items,
        Some(v) => seq![v],
        None => Seq::empty(),
    }
}

/// The answer to a call of a tool that is not there.
pub open spec fn unknown(c: LoopShapeV) -> JsonV {
    ir_agent::complaint(
        "unknown_tool"@,
        "unknown tool; available tools: "@ + ir_agent::available(c),
    )
}

/// The memory that a call writes.
pub open spec fn memory_in(a: JsonV) -> JsonV {
    json::object(
        Seq::empty().push(("body"@, JsonV::Str(text_at(a, "content"@)))).push((
            "description"@,
            JsonV::Str(text_at(a, "description"@)),
        )).push(("name"@, JsonV::Str(text_at(a, "name"@)))).push(("type"@, part_of(a, "type"@))),
    )
}

/// What becomes of a call, by its name and by what it comes with.  A native
/// tool is never taken for a command.  An inference may refer to results in
/// the history `h`.
pub open spec fn call_of(c: LoopShapeV, h: Seq<JsonV>, call: JsonV) -> CallV {
    let name = text_at(call, "name"@);
    let a = arguments_of(call);
    let found = eval::select_all(h, references_of(a));
    if name == "infer"@ {
        if text_at(a, "model"@).len() == 0 || text_at(a, "prompt"@).len() == 0 {
            CallV::Refused(ir_agent::incomplete())
        } else if found.missing.len() > 0 {
            CallV::Refused(unresolved(found.missing))
        } else {
            CallV::Child {
                model: text_at(a, "model"@),
                prompt: text_at(a, "prompt"@),
                context: found.messages,
            }
        }
    } else if name == "shell"@ {
        if text_at(a, "command"@).len() == 0 {
            CallV::Refused(ir_agent::incomplete())
        } else {
            CallV::Command(text_at(a, "command"@))
        }
    } else if c.memory_tools && name == "remember"@ {
        if text_at(a, "content"@).len() == 0 {
            CallV::Refused(ir_agent::incomplete())
        } else {
            CallV::Remember(memory_in(a))
        }
    } else if c.memory_tools && name == "recall"@ {
        if text_at(a, "query"@).len() == 0 {
            CallV::Refused(ir_agent::incomplete())
        } else {
            CallV::Recall(text_at(a, "query"@))
        }
    } else if c.native_tools.contains(name) {
        CallV::Native { name, arguments: a }
    } else {
        CallV::Refused(unknown(c))
    }
}

/// Whether a machine is about a call.
pub open spec fn in_call(m: MachineV, h: Seq<JsonV>, calls: Seq<JsonV>, i: int, n: int) -> bool {
    &&& holds(m, "history"@, JsonV::Array(h))
    &&& holds(m, "tool_calls"@, JsonV::Array(calls))
    &&& holds(m, "i"@, JsonV::Int(i))
    &&& holds(m, "turns_left"@, JsonV::Int(n))
    &&& holds(m, "call"@, calls[i])
}

/// Whether a native tool is called in a block.
pub open spec fn native_at(c: LoopShapeV, block: u32, name: Seq<char>) -> bool {
    &&& 25 <= block < 24 + 2 * c.native_tools.len()
    &&& block % 2 == 1
    &&& c.native_tools[(block - 25) / 2] == name
}

/// Whether a machine is about to do what becomes of a call.
pub open spec fn asked(x: MachineV, c: LoopShapeV, hash: Seq<char>, what: CallV) -> bool {
    match what {
        CallV::Command(line) => stands(x, c, 12, 0) && (machine::stepped(x, hash) matches Ok(
            StepV::Effect(_, EffectV::Eval { command, argv, gated, .. }),
        ) && command == line && argv is None && gated == c.shell_requires_approval),
        CallV::Child { model, prompt, context } => stands(x, c, 13, 1) && (machine::stepped(
            x,
            hash,
        ) matches Ok(
            StepV::Effect(_, EffectV::Infer { model: asked, prompt: source, tools, on_error, .. }),
        ) && asked == model && source == PromptSourceV::Encoded(
            JsonV::Array(context.push(ir_agent::said("user"@, prompt))),
        ) && tools == Some(Seq::<Seq<char>>::empty()) && on_error == EffectErrorMode::Bind),
        CallV::Remember(memory) => stands(x, c, 22, 1) && (machine::stepped(x, hash) matches Ok(
            StepV::Effect(_, EffectV::Store { sink, op, id, item, on_error, .. }),
        ) && sink == "memory"@ && op == StoreOp::Create && id is None && item == memory && on_error
            == EffectErrorMode::Bind),
        CallV::Recall(words) => stands(x, c, 23, 0) && (machine::stepped(x, hash) matches Ok(
            StepV::Effect(_, EffectV::Retrieve { query, kind, max_bytes, on_error, .. }),
        ) && query == words && kind == Some(SourceKind::Semantic) && max_bytes == Some(
            ir_agent::RECALL_MAX_BYTES,
        ) && on_error == EffectErrorMode::Bind),
        CallV::Native { name, arguments } => x.program == ir_agent::loop_program(c) && x.pc == 0
            && native_at(c, x.block, name) && (machine::stepped(x, hash) matches Ok(
            StepV::Effect(_, EffectV::Tool { name: called, arguments: given, on_error, .. }),
        ) && called == name && given == arguments && on_error == EffectErrorMode::Bind),
        CallV::Refused(complaint) => stands(x, c, 9, 0) && holds(
            x,
            "tool_content"@,
            JsonV::Str(json::json_text(complaint)),
        ),
    }
}

spec fn is_called(w: Way, c: LoopShapeV, h: Seq<JsonV>, calls: Seq<JsonV>, i: int, n: int) -> bool {
    &&& on_way(w, c)
    &&& w.now.pc == 0
    &&& in_call(w.now, h, calls, i, n)
    &&& holds(w.now, "function_name"@, JsonV::Str(text_at(calls[i], "name"@)))
    &&& holds(w.now, "arguments"@, arguments_of(calls[i]))
}

proof fn lt_gives(env: Fields, a: ExprV, b: ExprV, x: int, y: int)
    requires
        gives(env, a, JsonV::Int(x)),
        gives(env, b, JsonV::Int(y)),
        i64::MIN <= x <= i64::MAX,
        i64::MIN <= y <= i64::MAX,
    ensures
        gives(env, ir_agent::v_lt(a, b), JsonV::Bool(x < y)),
{
}

proof fn name_gives(env: Fields, name: Seq<char>, tool: Seq<char>)
    requires
        json::lookup(env, "function_name"@) == Some(JsonV::Str(name)),
    ensures
        gives(
            env,
            ir_agent::v_eq(
                ir_agent::v_var("function_name"@),
                ExprV::Value(JsonV::Str(tool)),
            ),
            JsonV::Bool(name == tool),
        ),
{
    let x = ir_agent::v_var("function_name"@);
    assert(gives(env, x, JsonV::Str(name)));
    eq_gives(env, x, ExprV::Value(JsonV::Str(tool)), JsonV::Str(name), JsonV::Str(tool));
}

proof fn open_call(
    m: MachineV,
    c: LoopShapeV,
    hash: Seq<char>,
    h: Seq<JsonV>,
    calls: Seq<JsonV>,
    i: int,
    n: int,
) -> (w: Way)
    requires
        ir_agent::fits(c),
        before_call(m, c, h, calls, i, n),
        0 <= i < calls.len(),
        calls.len() <= i64::MAX,
        calls.len() <= usize::MAX,
    ensures
        is_called(w, c, h, calls, i, n),
        w.start == m && w.hash == hash,
        w.now.block == if text_at(calls[i], "name"@) == "infer"@ {
            8u32
        } else {
            6u32
        },
{
    broadcast use read_after_put;

    call_names();
    let w = Way { start: m, hash, steps: 0, now: m };
    let e = ir_agent::v_lt(ir_agent::v_var("i"@), ir_agent::v_len("tool_calls"@));
    lt_gives(
        w.now.env,
        ir_agent::v_var("i"@),
        ir_agent::v_len("tool_calls"@),
        i,
        calls.len() as int,
    );
    let w = bind(w, c, "keep_looping"@, e, JsonV::Bool(true));
    let w = branch(w, c, ir_agent::v_var("keep_looping"@), 4, 5, true);
    let at = ir_agent::v_var("i"@);
    assert(gives(w.now.env, at, JsonV::Int(i)));
    let w = bind(w, c, "call"@, ir_agent::v_index("tool_calls"@, at), calls[i]);
    let name = text_at(calls[i], "name"@);
    argument_gives(w.now.env, "call"@, "name"@, calls[i]);
    let e = ir_agent::v_argument("call"@, "name"@);
    let w = bind(w, c, "function_name"@, e, JsonV::Str(name));
    let nothing = ExprV::Object(Seq::empty());
    no_field_gives(w.now.env);
    assert(gives(w.now.env, nothing, JsonV::Object(Seq::empty())));
    let e = ir_agent::v_field_or("call"@, "arguments"@, nothing);
    let w = bind(w, c, "arguments"@, e, arguments_of(calls[i]));
    name_gives(w.now.env, name, "infer"@);
    let e = ir_agent::v_eq(ir_agent::v_var("function_name"@), ir_agent::v_text("infer"@));
    let w = bind(w, c, "is_infer_tool"@, e, JsonV::Bool(name == "infer"@));
    branch(w, c, ir_agent::v_var("is_infer_tool"@), 8, 6, name == "infer"@)
}

proof fn refuse(w: Way, c: LoopShapeV, h: Seq<JsonV>, calls: Seq<JsonV>, i: int, n: int) -> (x: Way)
    requires
        is_called(w, c, h, calls, i, n),
        w.now.block == 10 || w.now.block == 11,
    ensures
        on_way(x, c),
        same_way(x, w),
        in_call(x.now, h, calls, i, n),
        asked(
            x.now,
            c,
            w.hash,
            CallV::Refused(
                if w.now.block == 10 {
                    unknown(c)
                } else {
                    ir_agent::incomplete()
                },
            ),
        ),
{
    broadcast use read_after_put;

    call_names();
    let v = if w.now.block == 10 {
        unknown(c)
    } else {
        ir_agent::incomplete()
    };
    assert(gives(w.now.env, ExprV::Value(v), v));
    let w = bind(w, c, "invalid_message"@, ExprV::Value(v), v);
    let show = ir_agent::v_show(ir_agent::v_var("invalid_message"@));
    assert(gives(w.now.env, ir_agent::v_var("invalid_message"@), v));
    assert(gives(w.now.env, show, JsonV::Str(json::json_text(v))));
    let args = Seq::empty().push(show);
    let params = ir_agent::append_block().params;
    assert(machine::bound(w.now.env, params, args, 0) == Ok::<Fields, eval::EvalErrorV>(w.now.env));
    let env = json::put(w.now.env, "tool_content"@, JsonV::Str(json::json_text(v)));
    assert(machine::bound(w.now.env, params, args, 1) == Ok::<Fields, eval::EvalErrorV>(env));
    jump(w, c, 9, args, env)
}

proof fn item_gives(env: Fields, e: ExprV, v: JsonV)
    requires
        gives(env, e, v),
    ensures
        gives(
            env,
            ExprV::Array(Seq::empty().push(e)),
            JsonV::Array(Seq::empty().push(v)),
        ),
{
    let none: Seq<ExprV> = Seq::empty();
    let one = none.push(e);
    assert(one.drop_last() =~= none);
    assert(eval::eval_items(env, none) == Ok::<Seq<JsonV>, eval::EvalErrorV>(Seq::empty()));
    assert(eval::eval_items(env, one) == Ok::<Seq<JsonV>, eval::EvalErrorV>(
        Seq::empty().push(v),
    ));
}

proof fn call_child(
    w: Way,
    c: LoopShapeV,
    h: Seq<JsonV>,
    calls: Seq<JsonV>,
    i: int,
    n: int,
) -> (x: Way)
    requires
        is_called(w, c, h, calls, i, n),
        w.now.block == 8,
        text_at(calls[i], "name"@) == "infer"@,
    ensures
        on_way(x, c),
        same_way(x, w),
        in_call(x.now, h, calls, i, n),
        asked(x.now, c, w.hash, call_of(c, h, calls[i])),
{
    broadcast use read_after_put;

    call_names();
    let a = arguments_of(calls[i]);
    let model = text_at(a, "model"@);
    let prompt = text_at(a, "prompt"@);
    argument_gives(w.now.env, "arguments"@, "model"@, a);
    let e = ir_agent::v_argument("arguments"@, "model"@);
    let w = bind(w, c, "infer_model"@, e, JsonV::Str(model));
    argument_gives(w.now.env, "arguments"@, "prompt"@, a);
    let e = ir_agent::v_argument("arguments"@, "prompt"@);
    let w = bind(w, c, "infer_prompt_text"@, e, JsonV::Str(prompt));
    let e = ir_agent::v_is_empty("infer_model"@);
    let w = bind(w, c, "missing_infer_model"@, e, JsonV::Bool(model.len() == 0));
    let e = ir_agent::v_is_empty("infer_prompt_text"@);
    let w = bind(w, c, "missing_infer_prompt"@, e, JsonV::Bool(prompt.len() == 0));
    let x = ir_agent::v_var("missing_infer_model"@);
    let y = ir_agent::v_var("missing_infer_prompt"@);
    or_gives(w.now.env, x, y, model.len() == 0, prompt.len() == 0);
    let bad = model.len() == 0 || prompt.len() == 0;
    let e = ir_agent::v_or(x, y);
    let w = bind(w, c, "invalid_infer_arguments"@, e, JsonV::Bool(bad));
    let w = look_up(w, c, h, calls, i, n, bad);
    refuse_or_ask(w, c, h, calls, i, n, bad)
}

/// Whether a child could be asked, but for what it is asked about.
spec fn is_prepared(w: Way, c: LoopShapeV, a: JsonV, bad: bool) -> bool {
    &&& on_way(w, c)
    &&& w.now.block == 8
    &&& holds(w.now, "arguments"@, a)
    &&& holds(w.now, "infer_model"@, JsonV::Str(text_at(a, "model"@)))
    &&& holds(w.now, "infer_prompt_text"@, JsonV::Str(text_at(a, "prompt"@)))
    &&& holds(w.now, "invalid_infer_arguments"@, JsonV::Bool(bad))
}

/// How an inference is refused.
spec fn refusal(h: Seq<JsonV>, a: JsonV, bad: bool) -> JsonV {
    if bad {
        ir_agent::incomplete()
    } else {
        unresolved(eval::select_all(h, references_of(a)).missing)
    }
}

proof fn part_gives(env: Fields, base: Seq<char>, key: Seq<char>, v: JsonV, x: JsonV)
    requires
        json::lookup(env, base) == Some(v),
        v.field(key) == Some(x),
    ensures
        gives(env, ir_agent::v_field(base, key), x),
{
}

proof fn empty_gives(env: Fields, base: Seq<char>, items: Seq<JsonV>)
    requires
        json::lookup(env, base) == Some(JsonV::Array(items)),
    ensures
        gives(env, ir_agent::v_is_empty(base), JsonV::Bool(items.len() == 0)),
{
}

proof fn choice_gives(env: Fields, flag: Seq<char>, b: bool, yes: JsonV, e: ExprV, no: JsonV)
    requires
        json::lookup(env, flag) == Some(JsonV::Bool(b)),
        gives(env, e, no),
    ensures
        gives(
            env,
            ir_agent::v_if(ir_agent::v_var(flag), ExprV::Value(yes), e),
            if b {
                yes
            } else {
                no
            },
        ),
{
    assert(gives(env, ir_agent::v_var(flag), JsonV::Bool(b)));
    assert(gives(env, ExprV::Value(yes), yes));
}

proof fn flag_gives(env: Fields, flag: Seq<char>, b: bool)
    requires
        json::lookup(env, flag) == Some(JsonV::Bool(b)),
    ensures
        gives(env, ir_agent::v_var(flag), JsonV::Bool(b)),
        gives(
            env,
            ir_agent::v_eq(ir_agent::v_var(flag), ExprV::Value(JsonV::Bool(false))),
            JsonV::Bool(!b),
        ),
{
    let x = ir_agent::v_var(flag);
    let y = ExprV::Value(JsonV::Bool(false));
    assert(gives(env, x, JsonV::Bool(b)));
    assert(gives(env, y, JsonV::Bool(false)));
    eq_gives(env, x, y, JsonV::Bool(b), JsonV::Bool(false));
}

#[verifier::rlimit(40)]
proof fn look_up(
    w: Way,
    c: LoopShapeV,
    h: Seq<JsonV>,
    calls: Seq<JsonV>,
    i: int,
    n: int,
    bad: bool,
) -> (x: Way)
    requires
        is_prepared(w, c, arguments_of(calls[i]), bad),
        w.now.pc == 5,
        in_call(w.now, h, calls, i, n),
    ensures
        is_prepared(x, c, arguments_of(calls[i]), bad),
        same_way(x, w),
        x.now.pc == 11,
        in_call(x.now, h, calls, i, n),
        ({
            let a = arguments_of(calls[i]);
            let refs = references_of(a);
            &&& holds(x.now, "infer_context"@, eval::selection(h, JsonV::Array(refs)))
            &&& holds(
                x.now,
                "infer_refused"@,
                JsonV::Bool(bad || eval::select_all(h, refs).missing.len() > 0),
            )
            &&& holds(x.now, "infer_refusal"@, refusal(h, a, bad))
        }),
{
    broadcast use read_after_put;

    call_names();
    let a = arguments_of(calls[i]);
    let found = eval::select_all(h, references_of(a));
    references_give(w.now.env, h, a);
    selection_reads(h, references_of(a));
    let all = eval::selection(h, JsonV::Array(references_of(a)));
    let w = bind(w, c, "infer_context"@, ir_agent::v_references(), all);
    let e = ir_agent::v_field("infer_context"@, "missing"@);
    part_gives(w.now.env, "infer_context"@, "missing"@, all, JsonV::Array(found.missing));
    let w = bind(w, c, "missing_refs"@, e, JsonV::Array(found.missing));
    let none = found.missing.len() == 0;
    let e = ir_agent::v_is_empty("missing_refs"@);
    empty_gives(w.now.env, "missing_refs"@, found.missing);
    let w = bind(w, c, "refs_resolved"@, e, JsonV::Bool(none));
    let x = ir_agent::v_var("refs_resolved"@);
    let y = ExprV::Value(JsonV::Bool(false));
    flag_gives(w.now.env, "refs_resolved"@, none);
    let w = bind(w, c, "refs_unresolved"@, ir_agent::v_eq(x, y), JsonV::Bool(!none));
    let x = ir_agent::v_var("invalid_infer_arguments"@);
    let y = ir_agent::v_var("refs_unresolved"@);
    flag_gives(w.now.env, "invalid_infer_arguments"@, bad);
    flag_gives(w.now.env, "refs_unresolved"@, !none);
    or_gives(w.now.env, x, y, bad, !none);
    let w = bind(w, c, "infer_refused"@, ir_agent::v_or(x, y), JsonV::Bool(bad || !none));
    let v = if bad {
        ir_agent::incomplete()
    } else {
        unresolved(found.missing)
    };
    unresolved_gives(w.now.env, found.missing);
    let e = ir_agent::v_if(
        x,
        ExprV::Value(ir_agent::incomplete()),
        ir_agent::v_unresolved(),
    );
    choice_gives(
        w.now.env,
        "invalid_infer_arguments"@,
        bad,
        ir_agent::incomplete(),
        ir_agent::v_unresolved(),
        unresolved(found.missing),
    );
    bind(w, c, "infer_refusal"@, e, v)
}

proof fn refuse_or_ask(
    w: Way,
    c: LoopShapeV,
    h: Seq<JsonV>,
    calls: Seq<JsonV>,
    i: int,
    n: int,
    bad: bool,
) -> (x: Way)
    requires
        is_prepared(w, c, arguments_of(calls[i]), bad),
        w.now.pc == 11,
        in_call(w.now, h, calls, i, n),
        text_at(calls[i], "name"@) == "infer"@,
        bad == (text_at(arguments_of(calls[i]), "model"@).len() == 0 || text_at(
            arguments_of(calls[i]),
            "prompt"@,
        ).len() == 0),
        ({
            let a = arguments_of(calls[i]);
            let refs = references_of(a);
            &&& holds(w.now, "infer_context"@, eval::selection(h, JsonV::Array(refs)))
            &&& holds(
                w.now,
                "infer_refused"@,
                JsonV::Bool(bad || eval::select_all(h, refs).missing.len() > 0),
            )
            &&& holds(w.now, "infer_refusal"@, refusal(h, a, bad))
        }),
    ensures
        on_way(x, c),
        same_way(x, w),
        in_call(x.now, h, calls, i, n),
        asked(x.now, c, w.hash, call_of(c, h, calls[i])),
{
    broadcast use read_after_put;

    call_names();
    let a = arguments_of(calls[i]);
    let v = refusal(h, a, bad);
    let none = eval::select_all(h, references_of(a)).missing.len() == 0;
    let show = ir_agent::v_show(ir_agent::v_var("infer_refusal"@));
    show_gives(w.now.env, "infer_refusal"@, v);
    let args = Seq::empty().push(show);
    let params = ir_agent::append_block().params;
    assert(machine::bound(w.now.env, params, args, 0) == Ok::<Fields, eval::EvalErrorV>(w.now.env));
    let told = json::put(w.now.env, "tool_content"@, JsonV::Str(json::json_text(v)));
    assert(machine::bound(w.now.env, params, args, 1) == Ok::<Fields, eval::EvalErrorV>(told));
    let refused = bad || !none;
    let cond = ir_agent::v_var("infer_refused"@);
    let env = if refused {
        told
    } else {
        w.now.env
    };
    assert(gives(w.now.env, cond, JsonV::Bool(refused)));
    let x = fork(w, c, cond, 9, args, 13, refused, env);
    if refused {
        x
    } else {
        ask_child(x, c, text_at(a, "model"@), text_at(a, "prompt"@), h, references_of(a))
    }
}

/// The references of a call are looked up in the history.
proof fn references_give(env: Fields, h: Seq<JsonV>, a: JsonV)
    requires
        json::lookup(env, "history"@) == Some(JsonV::Array(h)),
        json::lookup(env, "arguments"@) == Some(a),
    ensures
        gives(
            env,
            ir_agent::v_references(),
            eval::selection(h, JsonV::Array(references_of(a))),
        ),
{
    let none = ExprV::Value(JsonV::Array(Seq::empty()));
    let e = ir_agent::v_field_or("arguments"@, "context_refs"@, none);
    assert(gives(env, none, JsonV::Array(Seq::empty())));
    match a.field("context_refs"@) {
        Some(v) => {
            assert(gives(env, e, v));
            assert(eval::selection(h, v) == eval::selection(h, JsonV::Array(references_of(a))));
        },
        None => {
            assert(gives(env, e, JsonV::Array(Seq::empty())));
        },
    }
}

/// What was selected is read back.
proof fn selection_reads(h: Seq<JsonV>, refs: Seq<JsonV>)
    ensures
        ({
            let found = eval::select_all(h, refs);
            let all = eval::selection(h, JsonV::Array(refs));
            &&& all.field("messages"@) == Some(JsonV::Array(found.messages))
            &&& all.field("missing"@) == Some(JsonV::Array(found.missing))
        }),
{
    broadcast use read_after_put;

    reveal_strlit("messages");
    reveal_strlit("missing");
    assert("messages"@.len() != "missing"@.len());
    let found = eval::select_all(h, refs);
    let empty: Fields = Seq::empty();
    let one = empty.push(("messages"@, JsonV::Array(found.messages)));
    let two = one.push(("missing"@, JsonV::Array(found.missing)));
    assert(two =~= seq![
        ("messages"@, JsonV::Array(found.messages)),
        ("missing"@, JsonV::Array(found.missing)),
    ]);
    assert(two.drop_last() =~= one);
    assert(one.drop_last() =~= empty);
    assert(json::put_all(Seq::empty(), empty) == Seq::<(Seq<char>, JsonV)>::empty());
    assert(json::put_all(Seq::empty(), one) == json::put(
        empty,
        "messages"@,
        JsonV::Array(found.messages),
    ));
}

/// The complaint about references that lead nowhere.
proof fn unresolved_gives(env: Fields, missing: Seq<JsonV>)
    requires
        json::lookup(env, "missing_refs"@) == Some(JsonV::Array(missing)),
    ensures
        gives(env, ir_agent::v_unresolved(), unresolved(missing)),
{
    let items: Seq<(Seq<char>, ExprV)> = Seq::empty();
    let f: Fields = Seq::empty();
    no_field_gives(env);
    let e = ir_agent::v_text("unresolved_context_refs"@);
    let v = JsonV::Str("unresolved_context_refs"@);
    assert(gives(env, e, v));
    field_gives(env, items, f, "error"@, e, v);
    let items = items.push(("error"@, e));
    let f = f.push(("error"@, v));
    let e = ir_agent::v_text("context_refs must name results of earlier tool calls"@);
    let v = JsonV::Str("context_refs must name results of earlier tool calls"@);
    assert(gives(env, e, v));
    field_gives(env, items, f, "message"@, e, v);
    let items = items.push(("message"@, e));
    let f = f.push(("message"@, v));
    let e = ir_agent::v_var("missing_refs"@);
    let v = JsonV::Array(missing);
    assert(gives(env, e, v));
    field_gives(env, items, f, "missing"@, e, v);
    let items = items.push(("missing"@, e));
    let f = f.push(("missing"@, v));
    let e = ExprV::Value(JsonV::Bool(false));
    let v = JsonV::Bool(false);
    assert(gives(env, e, v));
    field_gives(env, items, f, "ok"@, e, v);
    let items = items.push(("ok"@, e));
    assert(ir_agent::v_unresolved() == ExprV::Object(items));
}

proof fn ask_child(
    w: Way,
    c: LoopShapeV,
    model: Seq<char>,
    prompt: Seq<char>,
    h: Seq<JsonV>,
    refs: Seq<JsonV>,
) -> (x: Way)
    requires
        on_way(w, c),
        w.now.block == 13 && w.now.pc == 0,
        holds(w.now, "infer_model"@, JsonV::Str(model)),
        holds(w.now, "infer_prompt_text"@, JsonV::Str(prompt)),
        holds(w.now, "infer_context"@, eval::selection(h, JsonV::Array(refs))),
    ensures
        on_way(x, c),
        same_way(x, w),
        asked(
            x.now,
            c,
            w.hash,
            CallV::Child { model, prompt, context: eval::select_all(h, refs).messages },
        ),
        exists|v: JsonV| x.now.env == json::put(w.now.env, "infer_prompt"@, v),
{
    broadcast use read_after_put;

    call_names();
    let env = w.now.env;
    let items: Seq<(Seq<char>, ExprV)> = Seq::empty();
    let f: Fields = Seq::empty();
    no_field_gives(env);
    let content = ir_agent::v_var("infer_prompt_text"@);
    assert(gives(env, content, JsonV::Str(prompt)));
    field_gives(env, items, f, "content"@, content, JsonV::Str(prompt));
    let role = ir_agent::v_text("user"@);
    let items = items.push(("content"@, content));
    let f = f.push(("content"@, JsonV::Str(prompt)));
    field_gives(env, items, f, "role"@, role, JsonV::Str("user"@));
    let items = items.push(("role"@, role));
    message_reads("user"@, prompt);
    assert(gives(env, ExprV::Object(items), ir_agent::said("user"@, prompt)));
    let list: Seq<ExprV> = Seq::empty().push(ExprV::Object(items));
    let one = Seq::empty().push(ir_agent::said("user"@, prompt));
    item_gives(env, ExprV::Object(items), ir_agent::said("user"@, prompt));
    selection_reads(h, refs);
    let context = eval::select_all(h, refs).messages;
    let before = ir_agent::v_field("infer_context"@, "messages"@);
    assert(gives(env, before, JsonV::Array(context)));
    let e = ir_agent::v_concat(before, ExprV::Array(list));
    assert(gives(env, e, JsonV::Array(context + one)));
    assert(context + one =~= context.push(ir_agent::said("user"@, prompt)));
    let messages = JsonV::Array(context.push(ir_agent::said("user"@, prompt)));
    let x = bind(w, c, "infer_prompt"@, e, messages);
    reveal(machine::stepped);
    loop_laws::loop_block_found(c, 13);
    assert(gives(x.now.env, ir_agent::v_var("infer_model"@), JsonV::Str(model)));
    x
}

/// Results are passed on by reference: where every reference of an inference
/// leads to an earlier result, the child is asked about each of them, quoted
/// under its own id, before the prompt; where one does not, nothing is asked
/// and the call is answered with every reference that leads nowhere, and no
/// other.
pub proof fn references_are_passed_on(c: LoopShapeV, h: Seq<JsonV>, call: JsonV)
    requires
        text_at(call, "name"@) == "infer"@,
        text_at(arguments_of(call), "model"@).len() > 0,
        text_at(arguments_of(call), "prompt"@).len() > 0,
    ensures
        ({
            let refs = references_of(arguments_of(call));
            let missing = eval::select_all(h, refs).missing;
            match call_of(c, h, call) {
                CallV::Child { context, prompt, .. } => {
                    &&& prompt == text_at(arguments_of(call), "prompt"@)
                    &&& forall|i: int|
                        0 <= i < refs.len() ==> !eval::leads_nowhere(h, #[trigger] refs[i])
                            && context.contains(eval::quote_of(h, refs[i]->Str_0))
                },
                CallV::Refused(v) => {
                    &&& v == unresolved(missing)
                    &&& exists|i: int|
                        0 <= i < refs.len() && eval::leads_nowhere(h, #[trigger] refs[i])
                    &&& forall|i: int|
                        0 <= i < refs.len() && eval::leads_nowhere(h, #[trigger] refs[i])
                            ==> missing.contains(eval::named(refs[i]))
                    &&& forall|j: int| #![trigger missing[j]]
                        0 <= j < missing.len() ==> exists|i: int|
                            0 <= i < refs.len() && eval::leads_nowhere(h, #[trigger] refs[i])
                                && missing[j] == eval::named(refs[i])
                },
                _ => false,
            }
        }),
{
    let refs = references_of(arguments_of(call));
    eval::references_are_accounted_for(h, refs);
    eval::missing_lead_nowhere(h, refs);
    let found = eval::select_all(h, refs);
    if found.missing.len() > 0 {
        let first = found.missing[0];
        let i = choose|i: int|
            0 <= i < refs.len() && eval::leads_nowhere(h, #[trigger] refs[i]) && first
                == eval::named(refs[i]);
        assert(eval::leads_nowhere(h, refs[i]));
        assert(call_of(c, h, call) == CallV::Refused(unresolved(found.missing)));
    } else {
        assert forall|i: int| 0 <= i < refs.len() implies !eval::leads_nowhere(
            h,
            #[trigger] refs[i],
        ) && found.messages.contains(eval::quote_of(h, refs[i]->Str_0)) by {
            if eval::leads_nowhere(h, refs[i]) {
                assert(found.missing.contains(eval::named(refs[i])));
            }
            let id = refs[i]->Str_0;
            assert(refs.contains(JsonV::Str(id)));
            assert(found.seen.contains(id));
        }
    }
}

proof fn call_command(
    w: Way,
    c: LoopShapeV,
    h: Seq<JsonV>,
    calls: Seq<JsonV>,
    i: int,
    n: int,
) -> (x: Way)
    requires
        is_called(w, c, h, calls, i, n),
        w.now.block == 7,
        text_at(calls[i], "name"@) == "shell"@,
    ensures
        on_way(x, c),
        same_way(x, w),
        in_call(x.now, h, calls, i, n),
        asked(x.now, c, w.hash, call_of(c, h, calls[i])),
{
    broadcast use read_after_put;

    call_names();
    reveal_strlit("shell");
    reveal_strlit("infer");
    assert("shell"@[0] == 's' && "infer"@[0] == 'i');
    let a = arguments_of(calls[i]);
    let line = text_at(a, "command"@);
    argument_gives(w.now.env, "arguments"@, "command"@, a);
    let e = ir_agent::v_argument("arguments"@, "command"@);
    let w = bind(w, c, "command"@, e, JsonV::Str(line));
    let e = ir_agent::v_is_empty("command"@);
    let w = bind(w, c, "missing_command"@, e, JsonV::Bool(line.len() == 0));
    let w = branch(w, c, ir_agent::v_var("missing_command"@), 11, 12, line.len() == 0);
    if line.len() == 0 {
        refuse(w, c, h, calls, i, n)
    } else {
        reveal(machine::stepped);
        loop_laws::loop_block_found(c, 12);
        assert(gives(w.now.env, ir_agent::v_var("command"@), JsonV::Str(line)));
        w
    }
}

/// The names of the tools that every loop has tell themselves apart.
proof fn tool_names()
    ensures
        mark("infer"@) == (5nat, 'i', 'r'),
        mark("shell"@) == (5nat, 's', 'l'),
        mark("remember"@) == (8nat, 'r', 'r'),
        mark("recall"@) == (6nat, 'r', 'l'),
{
    reveal_strlit("infer");
    reveal_strlit("shell");
    reveal_strlit("remember");
    reveal_strlit("recall");
}

proof fn call_remember(
    w: Way,
    c: LoopShapeV,
    h: Seq<JsonV>,
    calls: Seq<JsonV>,
    i: int,
    n: int,
) -> (x: Way)
    requires
        is_called(w, c, h, calls, i, n),
        c.memory_tools,
        w.now.block == 19,
        text_at(calls[i], "name"@) == "remember"@,
    ensures
        on_way(x, c),
        same_way(x, w),
        in_call(x.now, h, calls, i, n),
        asked(x.now, c, w.hash, call_of(c, h, calls[i])),
{
    broadcast use read_after_put;

    call_names();
    tool_names();
    let a = arguments_of(calls[i]);
    let name = text_at(a, "name"@);
    let content = text_at(a, "content"@);
    argument_gives(w.now.env, "arguments"@, "name"@, a);
    let e = ir_agent::v_argument("arguments"@, "name"@);
    let w = bind(w, c, "memory_name"@, e, JsonV::Str(name));
    argument_gives(w.now.env, "arguments"@, "content"@, a);
    let e = ir_agent::v_argument("arguments"@, "content"@);
    let w = bind(w, c, "memory_content"@, e, JsonV::Str(content));
    let bad = content.len() == 0;
    let e = ir_agent::v_is_empty("memory_content"@);
    let w = bind(w, c, "missing_memory_content"@, e, JsonV::Bool(bad));
    let w = branch(w, c, ir_agent::v_var("missing_memory_content"@), 11, 22, bad);
    if bad {
        refuse(w, c, h, calls, i, n)
    } else {
        let env = w.now.env;
        let items: Seq<(Seq<char>, ExprV)> = Seq::empty();
        let f: Fields = Seq::empty();
        no_field_gives(env);
        let e = ir_agent::v_var("memory_content"@);
        assert(gives(env, e, JsonV::Str(content)));
        field_gives(env, items, f, "body"@, e, JsonV::Str(content));
        let items = items.push(("body"@, e));
        let f = f.push(("body"@, JsonV::Str(content)));
        argument_gives(env, "arguments"@, "description"@, a);
        let e = ir_agent::v_argument("arguments"@, "description"@);
        let v = JsonV::Str(text_at(a, "description"@));
        field_gives(env, items, f, "description"@, e, v);
        let items = items.push(("description"@, e));
        let f = f.push(("description"@, v));
        let e = ir_agent::v_var("memory_name"@);
        assert(gives(env, e, JsonV::Str(name)));
        field_gives(env, items, f, "name"@, e, JsonV::Str(name));
        let items = items.push(("name"@, e));
        let f = f.push(("name"@, JsonV::Str(name)));
        assert(gives(env, ir_agent::v_null(), JsonV::Null));
        let e = ir_agent::v_field_or("arguments"@, "type"@, ir_agent::v_null());
        assert(gives(env, e, part_of(a, "type"@)));
        field_gives(env, items, f, "type"@, e, part_of(a, "type"@));
        let items = items.push(("type"@, e));
        assert(gives(env, ExprV::Object(items), memory_in(a)));
        let w = bind(w, c, "memory_item"@, ExprV::Object(items), memory_in(a));
        reveal(machine::stepped);
        loop_laws::loop_block_found(c, 22);
        assert(gives(w.now.env, ir_agent::v_var("memory_item"@), memory_in(a)));
        assert(gives(w.now.env, ir_agent::v_text("memory"@), JsonV::Str("memory"@)));
        w
    }
}

proof fn call_recall(
    w: Way,
    c: LoopShapeV,
    h: Seq<JsonV>,
    calls: Seq<JsonV>,
    i: int,
    n: int,
) -> (x: Way)
    requires
        is_called(w, c, h, calls, i, n),
        c.memory_tools,
        w.now.block == 21,
        text_at(calls[i], "name"@) == "recall"@,
    ensures
        on_way(x, c),
        same_way(x, w),
        in_call(x.now, h, calls, i, n),
        asked(x.now, c, w.hash, call_of(c, h, calls[i])),
{
    broadcast use read_after_put;

    call_names();
    tool_names();
    let a = arguments_of(calls[i]);
    let words = text_at(a, "query"@);
    argument_gives(w.now.env, "arguments"@, "query"@, a);
    let e = ir_agent::v_argument("arguments"@, "query"@);
    let w = bind(w, c, "recall_query"@, e, JsonV::Str(words));
    let bad = words.len() == 0;
    let e = ir_agent::v_is_empty("recall_query"@);
    let w = bind(w, c, "missing_recall_query"@, e, JsonV::Bool(bad));
    let w = branch(w, c, ir_agent::v_var("missing_recall_query"@), 11, 23, bad);
    if bad {
        refuse(w, c, h, calls, i, n)
    } else {
        reveal(machine::stepped);
        loop_laws::loop_block_found(c, 23);
        assert(gives(w.now.env, ir_agent::v_var("recall_query"@), JsonV::Str(words)));
        w
    }
}

proof fn native_blocks(c: LoopShapeV, k: int)
    requires
        ir_agent::fits(c),
        0 <= k < c.native_tools.len(),
    ensures
        loop_laws::in_loop(c, (24 + 2 * k) as u32),
        loop_laws::in_loop(c, (25 + 2 * k) as u32),
        ir_agent::block_under(c, (24 + 2 * k) as u32) == ir_agent::native_dispatch_block(
            c.native_tools[k],
            (25 + 2 * k) as u32,
            ir_agent::after_native(c, k),
        ),
        ir_agent::block_under(c, (25 + 2 * k) as u32) == ir_agent::native_block(c.native_tools[k]),
{
    let first = (24 + 2 * k) as u32;
    let second = (25 + 2 * k) as u32;
    assert((first - 24) / 2 == k && (first - 24) % 2 == 0);
    assert((second - 24) / 2 == k && (second - 24) % 2 == 1);
}

proof fn native_asks(w: Way, c: LoopShapeV, call: JsonV, k: int)
    requires
        on_way(w, c),
        0 <= k < c.native_tools.len(),
        w.now.block == 25 + 2 * k,
        w.now.pc == 0,
        holds(w.now, "arguments"@, arguments_of(call)),
    ensures
        asked(
            w.now,
            c,
            w.hash,
            CallV::Native { name: c.native_tools[k], arguments: arguments_of(call) },
        ),
{
    reveal(machine::stepped);
    native_blocks(c, k);
    loop_laws::loop_block_found(c, w.now.block);
    assert(gives(w.now.env, ir_agent::v_var("arguments"@), arguments_of(call)));
    assert((w.now.block - 25) / 2 == k && w.now.block % 2 == 1);
}

proof fn call_native(
    w: Way,
    c: LoopShapeV,
    h: Seq<JsonV>,
    calls: Seq<JsonV>,
    i: int,
    n: int,
    k: int,
) -> (x: Way)
    requires
        is_called(w, c, h, calls, i, n),
        0 <= k < c.native_tools.len(),
        w.now.block == 24 + 2 * k,
        forall|j: int|
            0 <= j < k ==> #[trigger] c.native_tools[j] != text_at(calls[i], "name"@),
    ensures
        on_way(x, c),
        same_way(x, w),
        in_call(x.now, h, calls, i, n),
        ({
            let name = text_at(calls[i], "name"@);
            if c.native_tools.contains(name) {
                asked(
                    x.now,
                    c,
                    w.hash,
                    CallV::Native { name, arguments: arguments_of(calls[i]) },
                )
            } else {
                asked(x.now, c, w.hash, CallV::Refused(unknown(c)))
            }
        }),
    decreases c.native_tools.len() - k,
{
    broadcast use read_after_put;

    call_names();
    let name = text_at(calls[i], "name"@);
    let tool = c.native_tools[k];
    let body = (25 + 2 * k) as u32;
    let other = ir_agent::after_native(c, k);
    native_blocks(c, k);
    name_gives(w.now.env, name, tool);
    let e = ir_agent::v_eq(
        ir_agent::v_var("function_name"@),
        ExprV::Value(JsonV::Str(tool)),
    );
    let w = bind(w, c, "is_native_tool"@, e, JsonV::Bool(name == tool));
    let next = k + 1 < c.native_tools.len();
    if next {
        native_blocks(c, k + 1);
    }
    let w = branch(w, c, ir_agent::v_var("is_native_tool"@), body, other, name == tool);
    if name == tool {
        assert(c.native_tools.contains(name));
        native_asks(w, c, calls[i], k);
        w
    } else if next {
        call_native(w, c, h, calls, i, n, k + 1)
    } else {
        assert(!c.native_tools.contains(name));
        refuse(w, c, h, calls, i, n)
    }
}

proof fn call_other(
    w: Way,
    c: LoopShapeV,
    h: Seq<JsonV>,
    calls: Seq<JsonV>,
    i: int,
    n: int,
) -> (x: Way)
    requires
        is_called(w, c, h, calls, i, n),
        w.now.block == ir_agent::fallback(c),
    ensures
        on_way(x, c),
        same_way(x, w),
        in_call(x.now, h, calls, i, n),
        ({
            let name = text_at(calls[i], "name"@);
            if c.native_tools.contains(name) {
                asked(
                    x.now,
                    c,
                    w.hash,
                    CallV::Native { name, arguments: arguments_of(calls[i]) },
                )
            } else {
                asked(x.now, c, w.hash, CallV::Refused(unknown(c)))
            }
        }),
{
    if c.native_tools.len() == 0 {
        refuse(w, c, h, calls, i, n)
    } else {
        call_native(w, c, h, calls, i, n, 0)
    }
}

/// A call is carried out by its name and by what it comes with, and by nothing
/// else: each of the tools that a loop has does what it is for, native tools
/// are called under their own names, and a call of any other tool, or one
/// without what it needs, is answered with a complaint.
pub proof fn calls_are_dispatched_by_name(
    m: MachineV,
    c: LoopShapeV,
    hash: Seq<char>,
    h: Seq<JsonV>,
    calls: Seq<JsonV>,
    i: int,
    n: int,
)
    requires
        ir_agent::fits(c),
        before_call(m, c, h, calls, i, n),
        0 <= i < calls.len(),
        calls.len() <= i64::MAX,
        calls.len() <= usize::MAX,
    ensures
        exists|k: nat|
            (#[trigger] quietly(m, hash, k)) is Some && in_call(
                quietly(m, hash, k)->0,
                h,
                calls,
                i,
                n,
            ) && asked(quietly(m, hash, k)->0, c, hash, call_of(c, h, calls[i])),
{
    broadcast use read_after_put;

    call_names();
    tool_names();
    let name = text_at(calls[i], "name"@);
    let w = open_call(m, c, hash, h, calls, i, n);
    let x = if name == "infer"@ {
        call_child(w, c, h, calls, i, n)
    } else {
        name_gives(w.now.env, name, "shell"@);
        let e = ir_agent::v_eq(ir_agent::v_var("function_name"@), ir_agent::v_text("shell"@));
        let w = bind(w, c, "is_shell_tool"@, e, JsonV::Bool(name == "shell"@));
        let other = ir_agent::after_shell(c);
        let w = branch(w, c, ir_agent::v_var("is_shell_tool"@), 7, other, name == "shell"@);
        if name == "shell"@ {
            call_command(w, c, h, calls, i, n)
        } else if !c.memory_tools {
            call_other(w, c, h, calls, i, n)
        } else {
            name_gives(w.now.env, name, "remember"@);
            let e = ir_agent::v_eq(
                ir_agent::v_var("function_name"@),
                ir_agent::v_text("remember"@),
            );
            let is = name == "remember"@;
            let w = bind(w, c, "is_remember_tool"@, e, JsonV::Bool(is));
            let w = branch(w, c, ir_agent::v_var("is_remember_tool"@), 19, 20, is);
            if is {
                call_remember(w, c, h, calls, i, n)
            } else {
                name_gives(w.now.env, name, "recall"@);
                let e = ir_agent::v_eq(
                    ir_agent::v_var("function_name"@),
                    ir_agent::v_text("recall"@),
                );
                let is = name == "recall"@;
                let w = bind(w, c, "is_recall_tool"@, e, JsonV::Bool(is));
                let other = ir_agent::fallback(c);
                let w = branch(w, c, ir_agent::v_var("is_recall_tool"@), 21, other, is);
                if is {
                    call_recall(w, c, h, calls, i, n)
                } else {
                    call_other(w, c, h, calls, i, n)
                }
            }
        }
    };
    assert(quietly(m, hash, x.steps) == Some(x.now));
}

/// The text that answers a call, out of what it gave.
pub open spec fn answer_text(what: CallV, v: JsonV) -> Seq<char> {
    match what {
        CallV::Child { .. } => if text_at(v, "content"@).len() == 0 {
            json::json_text(v)
        } else {
            text_at(v, "content"@)
        },
        CallV::Native { .. } => match v {
            JsonV::Str(s) => s,
            _ => json::json_text(v),
        },
        CallV::Refused(complaint) => json::json_text(complaint),
        _ => json::json_text(v),
    }
}

/// The message that answers a call.
pub open spec fn answering(call: JsonV, content: Seq<char>) -> JsonV {
    json::object(
        Seq::empty().push(("content"@, JsonV::Str(content))).push((
            "role"@,
            JsonV::Str("tool"@),
        )).push(("tool_call_id"@, part_of(call, "id"@))),
    )
}

/// Whether a machine has what a call gave.
pub open spec fn replied(m: MachineV, c: LoopShapeV, what: CallV, v: JsonV) -> bool {
    match what {
        CallV::Command(_) => stands(m, c, 12, 1) && holds(m, "eval_result"@, v),
        CallV::Child { .. } => stands(m, c, 13, 2) && holds(m, "infer_result"@, v),
        CallV::Remember(_) => c.memory_tools && stands(m, c, 22, 2) && holds(m, "stored_id"@, v),
        CallV::Recall(_) => c.memory_tools && stands(m, c, 23, 1) && holds(m, "recall_hits"@, v),
        CallV::Native { name, .. } => stands(m, c, m.block, 1) && native_at(c, m.block, name)
            && holds(m, "native_tool_result"@, v),
        CallV::Refused(complaint) => stands(m, c, 9, 0) && holds(
            m,
            "tool_content"@,
            JsonV::Str(json::json_text(complaint)),
        ),
    }
}

/// A call that is carried out gives its result, or its failure as a value; only
/// a command that cannot be run at all ends the loop.
#[verifier::rlimit(40)]
#[verifier::spinoff_prover]
pub proof fn failed_calls_are_answers(
    x: MachineV,
    c: LoopShapeV,
    hash: Seq<char>,
    h: Seq<JsonV>,
    calls: Seq<JsonV>,
    i: int,
    n: int,
    what: CallV,
    y: MachineV,
    e: EffectV,
    result: Result<JsonV, Seq<char>>,
)
    requires
        ir_agent::fits(c),
        in_call(x, h, calls, i, n),
        asked(x, c, hash, what),
        !(what is Refused),
        what is Remember || what is Recall ==> c.memory_tools,
        machine::stepped(x, hash) == Ok::<StepV, machine::RunErrorV>(StepV::Effect(y, e)),
    ensures
        driver::out_of(e) is Some,
        match interpreter::settled(y, driver::out_of(e)->0, driver::mode_of(e), result) {
            Ok(z) => in_call(z, h, calls, i, n) && replied(
                z,
                c,
                what,
                match result {
                    Ok(v) => v,
                    Err(t) => interpreter::error_value(t),
                },
            ),
            Err(_) => what is Command && result is Err,
        },
{
    broadcast use read_after_put;

    call_names();
    reveal(machine::stepped);
    if let CallV::Native { .. } = what {
        let k = (x.block - 25) / 2;
        assert(x.block == 25 + 2 * k);
        native_blocks(c, k);
    }
    loop_laws::loop_block_found(c, x.block);
}

proof fn append_answer(
    w: Way,
    c: LoopShapeV,
    h: Seq<JsonV>,
    calls: Seq<JsonV>,
    i: int,
    n: int,
    content: Seq<char>,
) -> (x: Way)
    requires
        on_way(w, c),
        in_call(w.now, h, calls, i, n),
        w.now.block == 9 && w.now.pc == 0,
        holds(w.now, "tool_content"@, JsonV::Str(content)),
        0 <= i < calls.len(),
        calls.len() <= i64::MAX,
        calls[i].field("id"@) is Some,
    ensures
        on_way(x, c),
        same_way(x, w),
        before_call(x.now, c, h.push(answering(calls[i], content)), calls, i + 1, n),
{
    broadcast use read_after_put;

    call_names();
    let env = w.now.env;
    let items: Seq<(Seq<char>, ExprV)> = Seq::empty();
    let f: Fields = Seq::empty();
    no_field_gives(env);
    let e = ir_agent::v_var("tool_content"@);
    assert(gives(env, e, JsonV::Str(content)));
    field_gives(env, items, f, "content"@, e, JsonV::Str(content));
    let items = items.push(("content"@, e));
    let f = f.push(("content"@, JsonV::Str(content)));
    let e = ir_agent::v_text("tool"@);
    field_gives(env, items, f, "role"@, e, JsonV::Str("tool"@));
    let items = items.push(("role"@, e));
    let f = f.push(("role"@, JsonV::Str("tool"@)));
    let e = ir_agent::v_field("call"@, "id"@);
    field_gives(env, items, f, "tool_call_id"@, e, part_of(calls[i], "id"@));
    let items = items.push(("tool_call_id"@, e));
    let message = answering(calls[i], content);
    assert(gives(env, ExprV::Object(items), message));
    let w = bind(w, c, "tool_message"@, ExprV::Object(items), message);
    let e = ir_agent::v_var("tool_message"@);
    assert(gives(w.now.env, e, message));
    let after = h.push(message);
    let w = bind(w, c, "next_history"@, ir_agent::v_push("history"@, e), JsonV::Array(after));
    let at = ir_agent::v_var("i"@);
    assert(gives(w.now.env, at, JsonV::Int(i)));
    assert(gives(w.now.env, ir_agent::v_int(1), JsonV::Int(1)));
    let e = ir_agent::v_plus(at, ir_agent::v_int(1));
    let w = bind(w, c, "next_i"@, e, JsonV::Int(i + 1));
    let args = Seq::empty().push(ir_agent::v_var("next_history"@)).push(
        ir_agent::v_var("tool_calls"@),
    ).push(ir_agent::v_var("next_i"@)).push(ir_agent::v_var("turns_left"@));
    bound_four(
        w.now.env,
        ir_agent::loop_block().params,
        args,
        JsonV::Array(after),
        JsonV::Array(calls),
        JsonV::Int(i + 1),
        JsonV::Int(n),
    );
    let env = json::put(
        json::put(
            json::put(
                json::put(w.now.env, "history"@, JsonV::Array(after)),
                "tool_calls"@,
                JsonV::Array(calls),
            ),
            "i"@,
            JsonV::Int(i + 1),
        ),
        "turns_left"@,
        JsonV::Int(n),
    );
    jump(w, c, 3, args, env)
}

proof fn hand_over(
    w: Way,
    c: LoopShapeV,
    h: Seq<JsonV>,
    calls: Seq<JsonV>,
    i: int,
    n: int,
    e: ExprV,
    content: Seq<char>,
) -> (x: Way)
    requires
        on_way(w, c),
        in_call(w.now, h, calls, i, n),
        ({
            let b = ir_agent::block_under(c, w.now.block);
            &&& w.now.pc == b.instructions.len() - 1
            &&& w.now.pc >= 0
            &&& b.instructions[w.now.pc] == ir_agent::v_let("tool_content"@, e)
            &&& b.terminator == (TerminatorV::Goto {
                block: 9,
                args: Seq::empty().push(ir_agent::v_var("tool_content"@)),
            })
        }),
        gives(w.now.env, e, JsonV::Str(content)),
    ensures
        on_way(x, c),
        same_way(x, w),
        in_call(x.now, h, calls, i, n),
        x.now.block == 9 && x.now.pc == 0,
        holds(x.now, "tool_content"@, JsonV::Str(content)),
{
    broadcast use read_after_put;

    call_names();
    let w = bind(w, c, "tool_content"@, e, JsonV::Str(content));
    let args = Seq::empty().push(ir_agent::v_var("tool_content"@));
    let params = ir_agent::append_block().params;
    assert(gives(w.now.env, ir_agent::v_var("tool_content"@), JsonV::Str(content)));
    assert(machine::bound(w.now.env, params, args, 0) == Ok::<Fields, eval::EvalErrorV>(w.now.env));
    let env = json::put(w.now.env, "tool_content"@, JsonV::Str(content));
    assert(machine::bound(w.now.env, params, args, 1) == Ok::<Fields, eval::EvalErrorV>(env));
    jump(w, c, 9, args, env)
}

proof fn show_gives(env: Fields, name: Seq<char>, v: JsonV)
    requires
        json::lookup(env, name) == Some(v),
    ensures
        gives(env, ir_agent::v_var(name), v),
        gives(env, ir_agent::v_show(ir_agent::v_var(name)), JsonV::Str(json::json_text(v))),
{
    assert(gives(env, ir_agent::v_var(name), v));
}

proof fn reach_answer(
    w: Way,
    c: LoopShapeV,
    h: Seq<JsonV>,
    calls: Seq<JsonV>,
    i: int,
    n: int,
    what: CallV,
    v: JsonV,
) -> (x: Way)
    requires
        on_way(w, c),
        in_call(w.now, h, calls, i, n),
        replied(w.now, c, what, v),
    ensures
        on_way(x, c),
        same_way(x, w),
        in_call(x.now, h, calls, i, n),
        x.now.block == 9 && x.now.pc == 0,
        holds(x.now, "tool_content"@, JsonV::Str(answer_text(what, v))),
{
    broadcast use read_after_put;

    call_names();
    let content = answer_text(what, v);
    match what {
        CallV::Command(_) => {
            show_gives(w.now.env, "eval_result"@, v);
            let e = ir_agent::v_show(ir_agent::v_var("eval_result"@));
            hand_over(w, c, h, calls, i, n, e, content)
        },
        CallV::Child { .. } => {
            let said = text_at(v, "content"@);
            argument_gives(w.now.env, "infer_result"@, "content"@, v);
            let e = ir_agent::v_argument("infer_result"@, "content"@);
            let w = bind(w, c, "infer_content"@, e, JsonV::Str(said));
            let e = ir_agent::v_is_empty("infer_content"@);
            let w = bind(w, c, "infer_content_empty"@, e, JsonV::Bool(said.len() == 0));
            show_gives(w.now.env, "infer_result"@, v);
            let x = ir_agent::v_var("infer_content_empty"@);
            let y = ir_agent::v_show(ir_agent::v_var("infer_result"@));
            let z = ir_agent::v_var("infer_content"@);
            assert(gives(w.now.env, x, JsonV::Bool(said.len() == 0)));
            assert(gives(w.now.env, z, JsonV::Str(said)));
            assert(gives(w.now.env, ir_agent::v_if(x, y, z), JsonV::Str(content)));
            hand_over(w, c, h, calls, i, n, ir_agent::v_if(x, y, z), content)
        },
        CallV::Remember(_) => {
            show_gives(w.now.env, "stored_id"@, v);
            let e = ir_agent::v_show(ir_agent::v_var("stored_id"@));
            hand_over(w, c, h, calls, i, n, e, content)
        },
        CallV::Recall(_) => {
            show_gives(w.now.env, "recall_hits"@, v);
            let e = ir_agent::v_show(ir_agent::v_var("recall_hits"@));
            hand_over(w, c, h, calls, i, n, e, content)
        },
        CallV::Native { .. } => {
            let k = (w.now.block - 25) / 2;
            assert(w.now.block == 25 + 2 * k);
            native_blocks(c, k);
            show_gives(w.now.env, "native_tool_result"@, v);
            let x = ir_agent::v_var("native_tool_result"@);
            let e = ir_agent::v_string_or(x, ir_agent::v_show(x));
            assert(gives(w.now.env, e, JsonV::Str(content)));
            hand_over(w, c, h, calls, i, n, e, content)
        },
        CallV::Refused(_) => w,
    }
}

/// What a call gave becomes the one message that answers it, under its own
/// identity, and the next call has its turn.
pub proof fn answers_join_the_history(
    m: MachineV,
    c: LoopShapeV,
    hash: Seq<char>,
    h: Seq<JsonV>,
    calls: Seq<JsonV>,
    i: int,
    n: int,
    what: CallV,
    v: JsonV,
)
    requires
        ir_agent::fits(c),
        in_call(m, h, calls, i, n),
        replied(m, c, what, v),
        0 <= i < calls.len(),
        calls.len() <= i64::MAX,
        calls[i].field("id"@) is Some,
    ensures
        exists|k: nat|
            (#[trigger] quietly(m, hash, k)) is Some && before_call(
                quietly(m, hash, k)->0,
                c,
                h.push(answering(calls[i], answer_text(what, v))),
                calls,
                i + 1,
                n,
            ),
{
    let w = Way { start: m, hash, steps: 0, now: m };
    let w = reach_answer(w, c, h, calls, i, n, what, v);
    let x = append_answer(w, c, h, calls, i, n, answer_text(what, v));
    assert(quietly(m, hash, x.steps) == Some(x.now));
}

/// Once every call is answered a new turn starts, with one turn less.
pub proof fn answered_calls_start_the_next_turn(
    m: MachineV,
    c: LoopShapeV,
    hash: Seq<char>,
    h: Seq<JsonV>,
    calls: Seq<JsonV>,
    n: int,
)
    requires
        ir_agent::fits(c),
        before_call(m, c, h, calls, calls.len() as int, n),
        calls.len() <= i64::MAX,
        0 < n <= i64::MAX,
    ensures
        exists|k: nat|
            (#[trigger] quietly(m, hash, k)) is Some && turn_starts(
                quietly(m, hash, k)->0,
                c,
                h,
                n - 1,
            ),
{
    broadcast use read_after_put;

    call_names();
    let w = Way { start: m, hash, steps: 0, now: m };
    let x = ir_agent::v_var("i"@);
    let y = ir_agent::v_len("tool_calls"@);
    lt_gives(w.now.env, x, y, calls.len() as int, calls.len() as int);
    let w = bind(w, c, "keep_looping"@, ir_agent::v_lt(x, y), JsonV::Bool(false));
    let w = branch(w, c, ir_agent::v_var("keep_looping"@), 4, 5, false);
    let left = ir_agent::v_var("turns_left"@);
    assert(gives(w.now.env, left, JsonV::Int(n)));
    minus_gives(w.now.env, left, n);
    let e = ir_agent::v_minus(left, ir_agent::v_int(1));
    let w = bind(w, c, "next_turns_left"@, e, JsonV::Int(n - 1));
    let args = Seq::empty().push(ir_agent::v_var("history"@)).push(
        ir_agent::v_var("next_turns_left"@),
    );
    bound_two(
        w.now.env,
        ir_agent::entry_block(c.model).params,
        args,
        JsonV::Array(h),
        JsonV::Int(n - 1),
    );
    let env = json::put(
        json::put(w.now.env, "history"@, JsonV::Array(h)),
        "turns_left"@,
        JsonV::Int(n - 1),
    );
    let w = jump(w, c, 0, args, env);
    assert(quietly(m, hash, w.steps) == Some(w.now));
}

/// A response that ends for want of turns says so, and keeps what the model
/// said and the calls that were not carried out.
pub proof fn spent_budgets_are_noted(r: JsonV)
    requires
        is_response(r),
    ensures
        ir_agent::exhausted(noted(r)),
        noted(r).field("content"@) == r.field("content"@),
        noted(r).field("tool_calls"@) == r.field("tool_calls"@),
        noted(r).field("total_tokens"@) == r.field("total_tokens"@),
{
    broadcast use read_after_put;

    reveal_strlit("content");
    reveal_strlit("finish_reason");
    reveal_strlit("input_tokens");
    reveal_strlit("metadata");
    reveal_strlit("output_tokens");
    reveal_strlit("tool_calls");
    reveal_strlit("total_tokens");
    assert(mark("content"@) == (7nat, 'c', 't'));
    assert(mark("finish_reason"@) == (13nat, 'f', 'n'));
    assert(mark("input_tokens"@) == (12nat, 'i', 's'));
    assert(mark("metadata"@) == (8nat, 'm', 'a'));
    assert(mark("output_tokens"@) == (13nat, 'o', 's'));
    assert(mark("tool_calls"@) == (10nat, 't', 's'));
    assert(mark("total_tokens"@) == (12nat, 't', 's'));
    let f: Fields = Seq::empty();
    let g = f.push(("stop_reason"@, JsonV::Str("turn_budget_exhausted"@)));
    listed_once_more(f, "stop_reason"@, JsonV::Str("turn_budget_exhausted"@));
    let metadata = json::object(g);
    listed_once_more(f, "content"@, part_of(r, "content"@));
    let f = f.push(("content"@, part_of(r, "content"@)));
    listed_once_more(f, "finish_reason"@, reason_of(r));
    let f = f.push(("finish_reason"@, reason_of(r)));
    listed_once_more(f, "input_tokens"@, part_of(r, "input_tokens"@));
    let f = f.push(("input_tokens"@, part_of(r, "input_tokens"@)));
    listed_once_more(f, "metadata"@, metadata);
    let f = f.push(("metadata"@, metadata));
    listed_once_more(f, "output_tokens"@, part_of(r, "output_tokens"@));
    let f = f.push(("output_tokens"@, part_of(r, "output_tokens"@)));
    listed_once_more(f, "tool_calls"@, part_of(r, "tool_calls"@));
    let f = f.push(("tool_calls"@, part_of(r, "tool_calls"@)));
    listed_once_more(f, "total_tokens"@, part_of(r, "total_tokens"@));
}

proof fn listed_once_more(f: Fields, key: Seq<char>, v: JsonV)
    ensures
        json::put_all(Seq::empty(), f.push((key, v))) == json::put(
            json::put_all(Seq::empty(), f),
            key,
            v,
        ),
{
    assert(f.push((key, v)).drop_last() =~= f);
}

/// A turn begins by asking the model of the loop for an answer to the history;
/// any response becomes the answer of the turn.
pub proof fn turns_ask_the_model(
    m: MachineV,
    c: LoopShapeV,
    hash: Seq<char>,
    h: Seq<JsonV>,
    n: int,
    response: ResponseV,
)
    requires
        ir_agent::fits(c),
        turn_starts(m, c, h, n),
        0 <= n <= i64::MAX,
    ensures
        ({
            let r = codec::response_json(response);
            let calls = Seq::new(
                response.tool_calls.len(),
                |i: int| codec::call_json(response.tool_calls[i]),
            );
            &&& is_response(r)
            &&& machine::stepped(m, hash) matches Ok(
                StepV::Effect(y, EffectV::Infer { out, model, prompt, tools, .. }),
            ) && model == c.model && prompt == PromptSourceV::Encoded(JsonV::Array(h))
                && tools is None && answered(machine::went_on(y, out, r), c, h, n, r, calls)
        }),
{
    broadcast use read_after_put;

    turn_names();
    reveal(machine::stepped);
    loop_laws::loop_block_found(c, 0);
    let r = codec::response_json(response);
    codec::responses_hold_their_parts(response);
}

proof fn messages_of_calls(call: JsonV, content: Seq<char>, calls: Seq<JsonV>)
    requires
        call.text_field("id"@) is Some,
    ensures
        eval::list_field(calling(content, calls), "tool_calls"@) == calls,
        calling(content, calls).text_field("tool_call_id"@) is None,
        eval::list_field(answering(call, content), "tool_calls"@).len() == 0,
        answering(call, content).text_field("tool_call_id"@) == call.text_field("id"@),
{
    broadcast use read_after_put;

    reveal_strlit("content");
    reveal_strlit("role");
    reveal_strlit("tool_calls");
    reveal_strlit("tool_call_id");
    assert("content"@.len() == 7 && "role"@.len() == 4);
    assert("tool_calls"@.len() == 10 && "tool_call_id"@.len() == 12);
    let shown = if content.len() == 0 {
        JsonV::Null
    } else {
        JsonV::Str(content)
    };
    let f: Fields = Seq::empty();
    assert(json::put_all(Seq::empty(), f) == f);
    listed_once_more(f, "content"@, shown);
    let g = f.push(("content"@, shown));
    listed_once_more(g, "role"@, JsonV::Str("assistant"@));
    let g = g.push(("role"@, JsonV::Str("assistant"@)));
    listed_once_more(g, "tool_calls"@, JsonV::Array(calls));
    listed_once_more(f, "content"@, JsonV::Str(content));
    let g = f.push(("content"@, JsonV::Str(content)));
    listed_once_more(g, "role"@, JsonV::Str("tool"@));
    let g = g.push(("role"@, JsonV::Str("tool"@)));
    listed_once_more(g, "tool_call_id"@, part_of(call, "id"@));
}

/// Whether one of the calls from a place on has an identity.
spec fn is_due(calls: Seq<JsonV>, from: int, id: Seq<char>) -> bool {
    exists|j: int|
        from <= j < calls.len() && (#[trigger] calls[j]).text_field("id"@) == Some(id)
}

proof fn opened_calls_are_due(calls: Seq<JsonV>, n: int, id: Seq<char>)
    requires
        0 <= n <= calls.len(),
        eval::add_call_ids(Seq::empty(), calls.take(n)).contains(id),
    ensures
        is_due(calls, 0, id),
    decreases n,
{
    if n > 0 {
        let list = calls.take(n);
        assert(list.drop_last() =~= calls.take(n - 1));
        assert(list.last() == calls[n - 1]);
        let before = eval::add_call_ids(Seq::empty(), calls.take(n - 1));
        if before.contains(id) {
            opened_calls_are_due(calls, n - 1, id);
        } else {
            assert(calls[n - 1].text_field("id"@) == Some(id));
        }
    }
}

proof fn open_calls_are_due(
    h: Seq<JsonV>,
    content: Seq<char>,
    calls: Seq<JsonV>,
    answers: Seq<Seq<char>>,
    n: int,
    id: Seq<char>,
)
    requires
        eval::pending_calls(h).len() == 0,
        answers.len() == calls.len(),
        forall|i: int| 0 <= i < calls.len() ==> (#[trigger] calls[i]).text_field("id"@) is Some,
        0 <= n <= calls.len(),
        calls.len() > 0,
        eval::pending_calls(
            h.push(calling(content, calls)) + answers_to(calls, answers).take(n),
        ).contains(id),
    ensures
        is_due(calls, n, id),
    decreases n,
{
    let asked = h.push(calling(content, calls));
    let all = answers_to(calls, answers);
    if n == 0 {
        messages_of_calls(calls[0], content, calls);
        assert(asked + all.take(0) =~= asked);
        assert(asked.drop_last() =~= h);
        assert(eval::pending_calls(h) =~= Seq::empty());
        assert(calls.take(calls.len() as int) =~= calls);
        opened_calls_are_due(calls, calls.len() as int, id);
    } else {
        let now = asked + all.take(n);
        let before = asked + all.take(n - 1);
        assert(now.drop_last() =~= before);
        assert(now.last() == answering(calls[n - 1], answers[n - 1]));
        messages_of_calls(calls[n - 1], answers[n - 1], calls);
        let closed = calls[n - 1].text_field("id"@)->0;
        op::without_members(eval::pending_calls(before), closed, id);
        open_calls_are_due(h, content, calls, answers, n - 1, id);
        let j = choose|j: int|
            n - 1 <= j < calls.len() && (#[trigger] calls[j]).text_field("id"@) == Some(id);
        assert(j >= n);
    }
}

/// The messages that answer some calls.
pub open spec fn answers_to(calls: Seq<JsonV>, answers: Seq<Seq<char>>) -> Seq<JsonV> {
    Seq::new(calls.len(), |i: int| answering(calls[i], answers[i]))
}

/// A history in which every call of a turn was answered leaves no call open:
/// the next turn can be over.
pub proof fn answered_calls_leave_none_open(
    h: Seq<JsonV>,
    content: Seq<char>,
    calls: Seq<JsonV>,
    answers: Seq<Seq<char>>,
)
    requires
        eval::pending_calls(h).len() == 0,
        answers.len() == calls.len(),
        calls.len() > 0,
        forall|i: int| 0 <= i < calls.len() ==> (#[trigger] calls[i]).text_field("id"@) is Some,
    ensures
        eval::pending_calls(h.push(calling(content, calls)) + answers_to(calls, answers)).len()
            == 0,
{
    let after = h.push(calling(content, calls)) + answers_to(calls, answers);
    let open = eval::pending_calls(after);
    if open.len() > 0 {
        let all = answers_to(calls, answers);
        assert(all.take(calls.len() as int) =~= all);
        assert(open.contains(open[0]));
        open_calls_are_due(h, content, calls, answers, calls.len() as int, open[0]);
    }
}

/// Whether a machine stands where a turn begins.
pub open spec fn begins(m: MachineV) -> bool {
    m.block == 0 && m.pc == 0
}

/// How many turns begin in the course of a run.
pub open spec fn turns_in(course: Seq<MachineV>) -> nat
    decreases course.len(),
{
    if course.len() == 0 {
        0
    } else {
        turns_in(course.drop_last()) + if begins(course.last()) {
            1nat
        } else {
            0nat
        }
    }
}

/// Whether a machine in a loop has so many turns left.
spec fn budgeted(m: MachineV, c: LoopShapeV, t: int) -> bool {
    &&& m.program == ir_agent::loop_program(c)
    &&& loop_laws::in_loop(c, m.block)
    &&& 0 <= m.pc <= ir_agent::block_under(c, m.block).instructions.len()
    &&& holds(m, "turns_left"@, JsonV::Int(t))
    &&& 0 <= t
    &&& m.block == 0 && m.pc == 10 ==> holds(m, "no_turns_left"@, JsonV::Bool(t == 0))
    &&& m.block == 0 && m.pc >= 11 && t == 0 ==> holds(m, "should_return"@, JsonV::Bool(true))
    &&& m.block == 5 && m.pc == 1 ==> holds(m, "next_turns_left"@, JsonV::Int(t - 1))
    &&& m.block == 15 && m.pc == 3 ==> holds(m, "nudge_turns_left"@, JsonV::Int(t - 1))
    &&& m.block != 0 && m.block != 1 && m.block != 16 && m.block != 17 ==> t > 0
}

/// No instruction of a loop sets the turns that are left.
#[verifier::rlimit(60)]
proof fn turns_are_left_alone(c: LoopShapeV, label: u32, p: int)
    requires
        ir_agent::fits(c),
        loop_laws::in_loop(c, label),
        0 <= p < ir_agent::block_under(c, label).instructions.len(),
    ensures
        ir_vars::defines(ir_agent::block_under(c, label).instructions[p]) is Some,
        ir_vars::defines(ir_agent::block_under(c, label).instructions[p]) != Some("turns_left"@),
        ir_agent::block_under(c, label).instructions[p] is Emit == false,
{
    turn_names();
    call_names();
    if label >= 24 {
        let k = (label - 24) / 2;
        assert(label == 24 + 2 * k || label == 25 + 2 * k);
        native_blocks(c, k);
    }
}

proof fn inside_a_block(a: MachineV, b: MachineV, c: LoopShapeV, hash: Seq<char>, t: int)
    requires
        ir_agent::fits(c),
        budgeted(a, c, t),
        run_laws::comes_next(a, b, hash),
        a.pc < ir_agent::block_under(c, a.block).instructions.len(),
    ensures
        budgeted(b, c, t),
        !begins(b),
{
    broadcast use read_after_put;

    turn_names();
    reveal(machine::stepped);
    loop_laws::loop_block_found(c, a.block);
    turns_are_left_alone(c, a.block, a.pc);
    let i = ir_agent::block_under(c, a.block).instructions[a.pc];
    let out = ir_vars::defines(i)->0;
    assert(exists|v: JsonV| b.env == json::put(a.env, out, v));
    assert(b.block == a.block && b.pc == a.pc + 1 && b.program == a.program);
    let left = ir_agent::v_var("turns_left"@);
    assert(gives(a.env, left, JsonV::Int(t)));
    if a.block == 0 && a.pc == 9 {
        eq_gives(a.env, left, ir_agent::v_int(0), JsonV::Int(t), JsonV::Int(0));
        assert(b.env == json::put(a.env, "no_turns_left"@, JsonV::Bool(t == 0)));
    } else if a.block == 0 && a.pc == 10 && t == 0 {
        let x = ir_agent::v_var("can_stop"@);
        let y = ir_agent::v_var("no_turns_left"@);
        assert(gives(a.env, y, JsonV::Bool(true)));
        assert(i == ir_agent::v_let("should_return"@, ir_agent::v_or(x, y)));
        assert(eval::eval(a.env, ir_agent::v_or(x, y)) is Ok);
        assert(gives(a.env, ir_agent::v_or(x, y), JsonV::Bool(true)));
        assert(b.env == json::put(a.env, "should_return"@, JsonV::Bool(true)));
    } else if a.block == 5 && a.pc == 0 {
        let e = ir_agent::v_minus(left, ir_agent::v_int(1));
        assert(i == ir_agent::v_let("next_turns_left"@, e));
        assert(gives(a.env, ir_agent::v_int(1), JsonV::Int(1)));
        assert(eval::eval(a.env, e) is Ok);
        assert(gives(a.env, e, JsonV::Int(t - 1)));
        assert(b.env == json::put(a.env, "next_turns_left"@, JsonV::Int(t - 1)));
    } else if a.block == 15 && a.pc == 2 {
        let e = ir_agent::v_minus(left, ir_agent::v_int(1));
        assert(i == ir_agent::v_let("nudge_turns_left"@, e));
        assert(gives(a.env, ir_agent::v_int(1), JsonV::Int(1)));
        assert(eval::eval(a.env, e) is Ok);
        assert(gives(a.env, e, JsonV::Int(t - 1)));
        assert(b.env == json::put(a.env, "nudge_turns_left"@, JsonV::Int(t - 1)));
    }
}

proof fn between_blocks(a: MachineV, b: MachineV, c: LoopShapeV, hash: Seq<char>, t: int)
    requires
        ir_agent::fits(c),
        budgeted(a, c, t),
        run_laws::comes_next(a, b, hash),
        a.pc == ir_agent::block_under(c, a.block).instructions.len(),
    ensures
        budgeted(
            b,
            c,
            if begins(b) {
                t - 1
            } else {
                t
            },
        ),
{
    broadcast use read_after_put;

    turn_names();
    call_names();
    reveal(machine::stepped);
    loop_laws::loop_block_found(c, a.block);
    let block = ir_agent::block_under(c, a.block);
    let left = ir_agent::v_var("turns_left"@);
    assert(gives(a.env, left, JsonV::Int(t)));
    leads_inside(c, a.block);
    match block.terminator {
        TerminatorV::Goto { block: to, args } => {
            loop_laws::loop_block_found(c, to);
            let params = ir_agent::block_under(c, to).params;
            let env = machine::bound(a.env, params, args, args.len());
            assert(env is Ok && b.env == env->Ok_0 && b.block == to && b.pc == 0);
            last_one_bound(a.env, params, args);
            if to == 9 {
                assert(machine::bound(a.env, params, args, 0) == Ok::<Fields, eval::EvalErrorV>(
                    a.env,
                ));
            }
        },
        TerminatorV::If { cond, then_block, then_args, else_block, else_args } => {
            loop_laws::loop_block_found(c, then_block);
            loop_laws::loop_block_found(c, else_block);
            let none: Seq<ExprV> = Seq::empty();
            assert(machine::bound(
                a.env,
                ir_agent::block_under(c, b.block).params,
                none,
                0,
            ) == Ok::<Fields, eval::EvalErrorV>(a.env));
            if b.block == 9 && then_args.len() == 1 {
                let params = ir_agent::block_under(c, 9).params;
                assert(machine::bound(a.env, params, then_args, 0) == Ok::<
                    Fields,
                    eval::EvalErrorV,
                >(a.env));
                last_one_bound(a.env, params, then_args);
            } else {
                assert(b.env == a.env);
            }
            assert(b.pc == 0);
            if a.block == 0 && t == 0 {
                assert(gives(a.env, ir_agent::v_var("should_return"@), JsonV::Bool(true)));
            }
        },
        _ => {},
    }
}

/// Where the end of each block of a loop leads, and what it hands over.
spec fn leaves(c: LoopShapeV, label: u32) -> bool {
    match ir_agent::block_under(c, label).terminator {
        TerminatorV::Return { .. } => true,
        TerminatorV::Goto { block: to, args } => {
            ||| to == 9 && args.len() == 1
            ||| to == 3 && args.len() == 4 && args[3] == ir_agent::v_var("turns_left"@)
            ||| to == 0 && args.len() == 2 && ((label == 5 && args[1] == ir_agent::v_var(
                "next_turns_left"@,
            )) || (label == 15 && args[1] == ir_agent::v_var("nudge_turns_left"@)))
        },
        TerminatorV::If { cond, then_block, then_args, else_block, else_args } => {
            &&& then_args.len() == 0 || (then_block == 9 && then_args.len() == 1)
            &&& else_args.len() == 0
            &&& loop_laws::in_loop(c, then_block) && loop_laws::in_loop(c, else_block)
            &&& then_block != 0 && else_block != 0
            &&& label == 0 ==> cond == ir_agent::v_var("should_return"@) && then_block == 16
            &&& (then_block == 1 || then_block == 16 || then_block == 17) ==> (label == 0 || label
                == 16)
            &&& label == 16 ==> then_block == 1 && else_block == 17
            &&& label != 16 ==> else_block != 1 && else_block != 16 && else_block != 17
        },
        _ => false,
    }
}

proof fn leads_inside(c: LoopShapeV, label: u32)
    requires
        ir_agent::fits(c),
        loop_laws::in_loop(c, label),
    ensures
        leaves(c, label),
{
    if label >= 24 {
        let k = (label - 24) / 2;
        assert(label == 24 + 2 * k || label == 25 + 2 * k);
        native_blocks(c, k);
        if k + 1 < c.native_tools.len() {
            native_blocks(c, k + 1);
        }
    } else if c.native_tools.len() > 0 {
        native_blocks(c, 0);
    }
}

proof fn last_one_bound(env: Fields, params: Seq<Seq<char>>, args: Seq<ExprV>)
    requires
        args.len() > 0,
        params.len() == args.len(),
        machine::bound(env, params, args, args.len()) is Ok,
    ensures
        ({
            let n = (args.len() - 1) as nat;
            let before = machine::bound(env, params, args, n);
            let v = eval::eval(env, args[n as int]);
            &&& before is Ok
            &&& v is Ok
            &&& machine::bound(env, params, args, args.len())->Ok_0 == json::put(
                before->Ok_0,
                params[n as int],
                v->Ok_0,
            )
        }),
{
}

proof fn budget_is_kept(course: Seq<MachineV>, c: LoopShapeV, hash: Seq<char>, most: int)
    requires
        ir_agent::fits(c),
        course.len() > 0,
        run_laws::is_run(course, hash),
        budgeted(course[0], c, most),
        begins(course[0]),
    ensures
        budgeted(course.last(), c, most + 1 - turns_in(course)),
    decreases course.len(),
{
    let before = course.drop_last();
    if course.len() == 1 {
        assert(turns_in(before) == 0);
    } else {
        assert forall|i: int| 0 <= i < before.len() - 1 implies run_laws::comes_next(
            #[trigger] before[i],
            before[i + 1],
            hash,
        ) by {
            assert(run_laws::comes_next(course[i], course[i + 1], hash));
        }
        budget_is_kept(before, c, hash, most);
        let t = most + 1 - turns_in(before);
        let a = before.last();
        let b = course.last();
        let at = course.len() - 2;
        assert(run_laws::comes_next(course[at], course[at + 1], hash));
        if a.pc < ir_agent::block_under(c, a.block).instructions.len() {
            inside_a_block(a, b, c, hash, t);
        } else {
            between_blocks(a, b, c, hash, t);
        }
    }
}

/// The turn budget is a ceiling: whatever the model answers and whatever calls
/// give, a loop begins one turn more than its budget at most.
pub proof fn turn_budget_is_a_ceiling(
    course: Seq<MachineV>,
    c: LoopShapeV,
    hash: Seq<char>,
    history: JsonV,
    max_turns: usize,
)
    requires
        ir_agent::fits(c),
        course.len() > 0,
        course[0] == ir_agent::loop_machine(c, history, max_turns),
        run_laws::is_run(course, hash),
    ensures
        turns_in(course) <= max_turns + 1,
{
    turn_names();
    let m = course[0];
    let env = ir_agent::first_env(history, max_turns);
    assert(env.drop_first()[0] == env[1]);
    assert(holds(m, "turns_left"@, JsonV::Int(max_turns as int))) by {
        reveal_with_fuel(json::lookup, 3);
    }
    budget_is_kept(course, c, hash, max_turns as int);
}

} // verus!
