//! The machine that runs a program: its state, the transfer of control
//! between blocks, and the effects that it asks for.
use crate::digest;
use crate::digest::digest_of;
use crate::effect;
use crate::effect::{
    effect_location, ControlPath, ControlPathV, EffectLocation, EffectLocationV, EffectSite,
};
use crate::eval;
use crate::eval::{eval_expr, pattern_matches, string_expr, EvalError, EvalErrorV};
use crate::ir;
use crate::ir::{
    BlockId, EffectErrorMode, EffectKind, EvalRequest, EvalRequestV, Expr, ExprV, Instr, InstrV,
    MatchArm, MatchArmV, Program, ProgramV, PromptRef, PromptRefV, SourceKind, StoreOp, Terminator,
    TerminatorV,
};
use crate::ir_flow;
use crate::ir_flow::{show_label, show_var, ProgramError, ProgramErrorV};
use crate::json;
use crate::json::{copy_fields, get_field, put_field, Fields, Json, JsonV};
use crate::op;
use crate::replay;
use crate::replay::{ReplayError, ReplayErrorV};
use crate::table;
use crate::table::{get_entry, set_entry};
use crate::text;
use crate::text::decimal_of;
use crate::trace::copy_opt_strings;
use vstd::prelude::*;

verus! {

/// A program and where it stands.
#[derive(Debug)]
pub struct Machine {
    pub program: Program,
    pub block: BlockId,
    /// The next instruction of the block.
    pub pc: usize,
    pub env: Vec<(String, Json)>,
    /// How often each instruction was visited.
    pub effect_visits: Vec<(String, u64)>,
    pub control_path: ControlPath,
}

/// The model of a machine.
pub struct MachineV {
    pub program: ProgramV,
    pub block: u32,
    pub pc: int,
    pub env: Fields,
    pub visits: Map<Seq<char>, u64>,
    pub path: ControlPathV,
}

impl Machine {
    pub open spec fn view(&self) -> MachineV {
        MachineV {
            program: self.program@,
            block: self.block.0,
            pc: self.pc as int,
            env: json::fields(self.env@),
            visits: table::entries(self.effect_visits@),
            path: self.control_path@,
        }
    }
}

/// Why a machine cannot go on.
#[derive(Debug)]
pub enum RunError {
    Invalid(ProgramError),
    UnknownBlock(BlockId),
    ArgCount { block: BlockId, expected: usize, got: usize },
    Eval(EvalError),
    IfNotBool(Json),
    NoArm(Json),
    TooManyArms,
    /// A block ends in `Par`.  Branches that run side by side can be written
    /// down and checked, but no machine runs them: it stops here, before the
    /// first of them.
    ParNotImplemented,
    UnknownPromptVar(String),
    UnknownPromptIrVar(String),
    Replay(ReplayError),
    Effect(String),
}

/// The model of a run error.
pub enum RunErrorV {
    Invalid(ProgramErrorV),
    UnknownBlock(BlockId),
    ArgCount { block: BlockId, expected: usize, got: usize },
    Eval(EvalErrorV),
    IfNotBool(JsonV),
    NoArm(JsonV),
    TooManyArms,
    ParNotImplemented,
    UnknownPromptVar(Seq<char>),
    UnknownPromptIrVar(Seq<char>),
    Replay(ReplayErrorV),
    Effect(Seq<char>),
}

impl RunError {
    pub open spec fn view(&self) -> RunErrorV {
        match self {
            RunError::Invalid(x) => RunErrorV::Invalid(x@),
            RunError::UnknownBlock(x) => RunErrorV::UnknownBlock(*x),
            RunError::ArgCount { block, expected, got } => RunErrorV::ArgCount {
                block: *block,
                expected: *expected,
                got: *got,
            },
            RunError::Eval(x) => RunErrorV::Eval(x@),
            RunError::IfNotBool(x) => RunErrorV::IfNotBool(x@),
            RunError::NoArm(x) => RunErrorV::NoArm(x@),
            RunError::TooManyArms => RunErrorV::TooManyArms,
            RunError::ParNotImplemented => RunErrorV::ParNotImplemented,
            RunError::UnknownPromptVar(x) => RunErrorV::UnknownPromptVar(x@),
            RunError::UnknownPromptIrVar(x) => RunErrorV::UnknownPromptIrVar(x@),
            RunError::Replay(x) => RunErrorV::Replay(x@),
            RunError::Effect(x) => RunErrorV::Effect(x@),
        }
    }
}

/// The message of a run error.
pub open spec fn run_error_text(e: RunErrorV) -> Seq<char> {
    match e {
        RunErrorV::Invalid(x) => ir_flow::program_error_text(x),
        RunErrorV::UnknownBlock(b) => "unknown AgentIR block "@ + ir_flow::label_text(b.0),
        RunErrorV::ArgCount { block, expected, got } => "AgentIR Goto to "@ + ir_flow::label_text(
            block.0,
        ) + " expected "@ + text::decimal(expected as nat) + " args, got "@ + text::decimal(
            got as nat,
        ),
        RunErrorV::Eval(x) => eval::eval_error_text(x),
        RunErrorV::IfNotBool(v) => "AgentIR If condition must be bool, got "@ + json::json_text(v),
        RunErrorV::NoArm(v) => "AgentIR Match had no matching arm and no default for "@
            + json::json_text(v),
        RunErrorV::TooManyArms => "AgentIR Match has too many arms"@,
        RunErrorV::ParNotImplemented =>
            "AgentIR Par terminator is not implemented in run_ir_sequential yet"@,
        RunErrorV::UnknownPromptVar(v) => "unknown AgentIR prompt var "@ + ir_flow::var_text(v),
        RunErrorV::UnknownPromptIrVar(v) => "unknown AgentIR PromptIR var "@ + ir_flow::var_text(v),
        RunErrorV::Replay(x) => replay::replay_error_text(x),
        RunErrorV::Effect(s) => s,
    }
}

fn with_text(prefix: &str, rest: &str) -> (r: String)
    ensures
        r@ == prefix@ + rest@,
{
    let mut out = prefix.to_owned();
    out.append(rest);
    out
}

impl RunError {
    /// The message of the error.
    pub fn message(&self) -> (r: String)
        ensures
            r@ == run_error_text(self@),
    {
        match self {
            RunError::Invalid(x) => x.message(),
            RunError::UnknownBlock(b) => with_text(
                "unknown AgentIR block ",
                show_label(*b).as_str(),
            ),
            RunError::ArgCount { block, expected, got } => {
                let mut out = "AgentIR Goto to ".to_owned();
                out.append(show_label(*block).as_str());
                out.append(" expected ");
                out.append(decimal_of(*expected as u128).as_str());
                out.append(" args, got ");
                out.append(decimal_of(*got as u128).as_str());
                out
            },
            RunError::Eval(x) => x.message(),
            RunError::IfNotBool(v) => with_text(
                "AgentIR If condition must be bool, got ",
                v.to_text().as_str(),
            ),
            RunError::NoArm(v) => with_text(
                "AgentIR Match had no matching arm and no default for ",
                v.to_text().as_str(),
            ),
            RunError::TooManyArms => "AgentIR Match has too many arms".to_owned(),
            RunError::ParNotImplemented =>
                "AgentIR Par terminator is not implemented in run_ir_sequential yet".to_owned(),
            RunError::UnknownPromptVar(v) => with_text(
                "unknown AgentIR prompt var ",
                show_var(v.as_str()).as_str(),
            ),
            RunError::UnknownPromptIrVar(v) => with_text(
                "unknown AgentIR PromptIR var ",
                show_var(v.as_str()).as_str(),
            ),
            RunError::Replay(x) => x.message(),
            RunError::Effect(s) => s.clone(),
        }
    }
}

/// The key under which visits of an instruction are counted.
pub open spec fn visit_key(site: EffectSite) -> Seq<char> {
    text::decimal(site.block.0 as nat) + ":"@ + text::decimal(site.instruction_index as nat)
}

fn site_key(site: EffectSite) -> (r: String)
    ensures
        r@ == visit_key(site),
{
    let mut key = decimal_of(site.block.0 as u128);
    key.append(":");
    key.append(decimal_of(site.instruction_index as u128).as_str());
    key
}

/// How often an instruction was visited.
pub open spec fn visits_at(m: MachineV, site: EffectSite) -> u64 {
    if m.visits.dom().contains(visit_key(site)) {
        m.visits[visit_key(site)]
    } else {
        0
    }
}

/// The machine after one more visit of an instruction.
pub open spec fn visited(m: MachineV, site: EffectSite) -> MachineV {
    let seen = visits_at(m, site);
    MachineV {
        visits: m.visits.insert(
            visit_key(site),
            if seen == u64::MAX {
                u64::MAX
            } else {
                (seen + 1) as u64
            },
        ),
        ..m
    }
}

/// The machine after a visit of an instruction was taken back.
pub open spec fn rewound(m: MachineV, site: EffectSite) -> MachineV {
    let seen = visits_at(m, site);
    if m.visits.dom().contains(visit_key(site)) {
        MachineV {
            visits: m.visits.insert(
                visit_key(site),
                if seen == 0 {
                    0
                } else {
                    (seen - 1) as u64
                },
            ),
            ..m
        }
    } else {
        m
    }
}

/// The environment after the first `n` parameters were bound to the values
/// of their arguments.
pub open spec fn bound(env: Fields, params: Seq<Seq<char>>, args: Seq<ExprV>, n: nat) -> Result<
    Fields,
    EvalErrorV,
>
    decreases n,
{
    if n == 0 {
        Ok(env)
    } else {
        match bound(env, params, args, (n - 1) as nat) {
            Ok(e) => match eval::eval(env, args[n - 1]) {
                Ok(v) => Ok(json::put(e, params[n - 1], v)),
                Err(x) => Err(x),
            },
            Err(x) => Err(x),
        }
    }
}

/// The machine after control went to a block over an arm of the terminator.
pub open spec fn entered(m: MachineV, to: u32, args: Seq<ExprV>, arm: u32) -> Result<
    MachineV,
    RunErrorV,
> {
    match ir::block_at(m.program.blocks, to) {
        None => Err(RunErrorV::UnknownBlock(BlockId(to))),
        Some(b) => if b.params.len() != args.len() {
            Err(
                RunErrorV::ArgCount {
                    block: BlockId(to),
                    expected: b.params.len() as usize,
                    got: args.len() as usize,
                },
            )
        } else {
            match bound(m.env, b.params, args, args.len()) {
                Ok(env) => Ok(
                    MachineV {
                        block: to,
                        pc: 0,
                        env,
                        path: effect::transitioned(m.path, m.block, arm, to),
                        ..m
                    },
                ),
                Err(e) => Err(RunErrorV::Eval(e)),
            }
        },
    }
}

/// What the end of a block does.
pub enum TransferV {
    Return(JsonV),
    Goto(MachineV),
}

/// The first arm from `from` on that accepts a value.
pub open spec fn first_fit(v: JsonV, arms: Seq<MatchArmV>, from: int) -> Option<int>
    decreases arms.len() - from,
{
    if from < 0 || from >= arms.len() {
        None
    } else if eval::fits(v, arms[from].pattern) {
        Some(from)
    } else {
        first_fit(v, arms, from + 1)
    }
}

/// The transfer to a block, as a transfer.
pub open spec fn going(r: Result<MachineV, RunErrorV>) -> Result<TransferV, RunErrorV> {
    match r {
        Ok(m) => Ok(TransferV::Goto(m)),
        Err(e) => Err(e),
    }
}

/// What the terminator of a block does.  Each transfer records the arm that
/// it took; the default of a match counts as one arm more.
pub open spec fn transferred(m: MachineV, t: TerminatorV) -> Result<TransferV, RunErrorV> {
    match t {
        TerminatorV::Return { value } => match eval::eval(m.env, value) {
            Ok(v) => Ok(TransferV::Return(v)),
            Err(e) => Err(RunErrorV::Eval(e)),
        },
        TerminatorV::Goto { block, args } => going(entered(m, block, args, 0)),
        TerminatorV::If { cond, then_block, then_args, else_block, else_args } => match eval::eval(
            m.env,
            cond,
        ) {
            Ok(JsonV::Bool(b)) => if b {
                going(entered(m, then_block, then_args, 0))
            } else {
                going(entered(m, else_block, else_args, 1))
            },
            Ok(other) => Err(RunErrorV::IfNotBool(other)),
            Err(e) => Err(RunErrorV::Eval(e)),
        },
        TerminatorV::Match { value, arms, default, default_args } => match eval::eval(
            m.env,
            value,
        ) {
            Ok(v) => match first_fit(v, arms, 0) {
                Some(i) => if i > u32::MAX {
                    Err(RunErrorV::TooManyArms)
                } else {
                    going(entered(m, arms[i].block, arms[i].args, i as u32))
                },
                None => match default {
                    Some(to) => if arms.len() > u32::MAX {
                        Err(RunErrorV::TooManyArms)
                    } else {
                        going(entered(m, to, default_args, arms.len() as u32))
                    },
                    None => Err(RunErrorV::NoArm(v)),
                },
            },
            Err(e) => Err(RunErrorV::Eval(e)),
        },
        TerminatorV::Par { .. } => Err(RunErrorV::ParNotImplemented),
    }
}

/// Where the messages of an inference come from.
#[derive(Debug)]
pub enum PromptSource {
    /// They stand in the program.
    Messages(Vec<op::ChatMessage>),
    /// A value that encodes them.
    Encoded(Json),
    /// A document that is compiled to them.
    Document(Json),
}

/// The model of a prompt source.
pub enum PromptSourceV {
    Messages(Seq<op::ChatMessageV>),
    Encoded(JsonV),
    Document(JsonV),
}

impl PromptSource {
    pub open spec fn view(&self) -> PromptSourceV {
        match self {
            PromptSource::Messages(m) => PromptSourceV::Messages(op::messages(m@)),
            PromptSource::Encoded(v) => PromptSourceV::Encoded(v@),
            PromptSource::Document(v) => PromptSourceV::Document(v@),
        }
    }
}

/// Where the messages of a prompt come from in an environment.
pub open spec fn resolved(env: Fields, p: PromptRefV) -> Result<PromptSourceV, RunErrorV> {
    match p {
        PromptRefV::Inline(m) => Ok(PromptSourceV::Messages(m)),
        PromptRefV::Var(v) => match json::lookup(env, v) {
            Some(x) => Ok(PromptSourceV::Encoded(x)),
            None => Err(RunErrorV::UnknownPromptVar(v)),
        },
        PromptRefV::PromptIr(d) => Ok(PromptSourceV::Document(d)),
        PromptRefV::PromptIrVar(v) => match json::lookup(env, v) {
            Some(x) => Ok(PromptSourceV::Document(x)),
            None => Err(RunErrorV::UnknownPromptIrVar(v)),
        },
    }
}

/// Finds where the messages of a prompt come from.
fn resolve_prompt(env: &Vec<(String, Json)>, p: &PromptRef) -> (r: Result<PromptSource, RunError>)
    ensures
        match (r, resolved(json::fields(env@), p@)) {
            (Ok(a), Ok(b)) => a@ == b,
            (Err(a), Err(b)) => a@ == b,
            _ => false,
        },
{
    match p {
        PromptRef::Inline(m) => {
            let copy = op::copy_messages(m, m.len());
            assert(op::messages(m@).take(m@.len() as int) =~= op::messages(m@));
            Ok(PromptSource::Messages(copy))
        },
        PromptRef::Var(v) => match get_field(env, v.0.as_str()) {
            Some(x) => Ok(PromptSource::Encoded(x.clone())),
            None => Err(RunError::UnknownPromptVar(v.0.clone())),
        },
        PromptRef::PromptIr(d) => Ok(PromptSource::Document(d.clone())),
        PromptRef::PromptIrVar(v) => match get_field(env, v.0.as_str()) {
            Some(x) => Ok(PromptSource::Document(x.clone())),
            None => Err(RunError::UnknownPromptIrVar(v.0.clone())),
        },
    }
}

/// An effect that a machine asks for, with everything that it was computed
/// to be.
#[derive(Debug)]
pub enum Effect {
    Infer {
        out: String,
        location: EffectLocation,
        model: String,
        prompt: PromptSource,
        tools: Option<Vec<String>>,
        on_error: EffectErrorMode,
    },
    Eval {
        out: String,
        location: EffectLocation,
        command: String,
        argv: Option<Vec<String>>,
        gated: bool,
    },
    Retrieve {
        out: String,
        location: EffectLocation,
        query: String,
        kind: Option<SourceKind>,
        max_bytes: Option<usize>,
        on_error: EffectErrorMode,
    },
    Store {
        out: String,
        location: EffectLocation,
        sink: String,
        op: StoreOp,
        id: Option<String>,
        item: Json,
        content_hash: String,
        on_error: EffectErrorMode,
    },
    Tool {
        out: String,
        location: EffectLocation,
        name: String,
        arguments: Json,
        on_error: EffectErrorMode,
    },
    Emit { event: Json },
}

/// The model of an effect.
pub enum EffectV {
    Infer {
        out: Seq<char>,
        location: EffectLocationV,
        model: Seq<char>,
        prompt: PromptSourceV,
        tools: Option<Seq<Seq<char>>>,
        on_error: EffectErrorMode,
    },
    Eval {
        out: Seq<char>,
        location: EffectLocationV,
        command: Seq<char>,
        argv: Option<Seq<Seq<char>>>,
        gated: bool,
    },
    Retrieve {
        out: Seq<char>,
        location: EffectLocationV,
        query: Seq<char>,
        kind: Option<SourceKind>,
        max_bytes: Option<usize>,
        on_error: EffectErrorMode,
    },
    Store {
        out: Seq<char>,
        location: EffectLocationV,
        sink: Seq<char>,
        op: StoreOp,
        id: Option<Seq<char>>,
        item: JsonV,
        content_hash: Seq<char>,
        on_error: EffectErrorMode,
    },
    Tool {
        out: Seq<char>,
        location: EffectLocationV,
        name: Seq<char>,
        arguments: JsonV,
        on_error: EffectErrorMode,
    },
    Emit { event: JsonV },
}

impl Effect {
    pub open spec fn view(&self) -> EffectV {
        match self {
            Effect::Infer { out, location, model, prompt, tools, on_error } => EffectV::Infer {
                out: out@,
                location: location@,
                model: model@,
                prompt: prompt@,
                tools: ir::opt_texts(*tools),
                on_error: *on_error,
            },
            Effect::Eval { out, location, command, argv, gated } => EffectV::Eval {
                out: out@,
                location: location@,
                command: command@,
                argv: ir::opt_texts(*argv),
                gated: *gated,
            },
            Effect::Retrieve {
                out,
                location,
                query,
                kind,
                max_bytes,
                on_error,
            } => EffectV::Retrieve {
                out: out@,
                location: location@,
                query: query@,
                kind: *kind,
                max_bytes: *max_bytes,
                on_error: *on_error,
            },
            Effect::Store {
                out,
                location,
                sink,
                op,
                id,
                item,
                content_hash,
                on_error,
            } => EffectV::Store {
                out: out@,
                location: location@,
                sink: sink@,
                op: *op,
                id: op::opt_text(*id),
                item: item@,
                content_hash: content_hash@,
                on_error: *on_error,
            },
            Effect::Tool { out, location, name, arguments, on_error } => EffectV::Tool {
                out: out@,
                location: location@,
                name: name@,
                arguments: arguments@,
                on_error: *on_error,
            },
            Effect::Emit { event } => EffectV::Emit { event: event@ },
        }
    }
}

/// Whether a character may stand unquoted in a shown command.
pub open spec fn is_plain(c: char) -> bool {
    ('a' <= c <= 'z') || ('A' <= c <= 'Z') || ('0' <= c <= '9') || c == '-' || c == '_' || c == '.'
        || c == '/' || c == '=' || c == ':' || c == ',' || c == '@' || c == '%' || c == '+'
}

/// How an argument is shown: as it stands where every character is plain, in
/// single quotes otherwise.
pub open spec fn shown_arg(s: Seq<char>) -> Seq<char> {
    if s.len() > 0 && forall|i: int| 0 <= i < s.len() ==> is_plain(#[trigger] s[i]) {
        s
    } else {
        "'"@ + escaped(s) + "'"@
    }
}

/// A text with each single quote closed, escaped and opened again.
pub open spec fn escaped(s: Seq<char>) -> Seq<char>
    decreases s.len(),
{
    if s.len() == 0 {
        Seq::empty()
    } else if s.last() == '\'' {
        escaped(s.drop_last()) + "'\\''"@
    } else {
        escaped(s.drop_last()).push(s.last())
    }
}

/// How a list of arguments is shown.
pub open spec fn shown_command(argv: Seq<Seq<char>>) -> Seq<char>
    decreases argv.len(),
{
    if argv.len() == 0 {
        Seq::empty()
    } else if argv.len() == 1 {
        shown_arg(argv[0])
    } else {
        shown_command(argv.drop_last()) + " "@ + shown_arg(argv.last())
    }
}

fn show_arg(s: &str) -> (r: String)
    ensures
        r@ == shown_arg(s@),
{
    let chars = text::chars_of(s);
    let mut plain = chars.len() > 0;
    let mut quoted = String::new();
    let mut i: usize = 0;
    assert(quoted@ =~= escaped(chars@.take(0)));
    while i < chars.len()
        invariant
            i <= chars@.len(),
            plain == (chars@.len() > 0 && forall|j: int|
                0 <= j < i ==> is_plain(#[trigger] chars@[j])),
            quoted@ == escaped(chars@.take(i as int)),
        decreases chars@.len() - i,
    {
        let c = chars[i];
        assert(chars@.take(i + 1).drop_last() =~= chars@.take(i as int));
        let ok = ('a' <= c && c <= 'z') || ('A' <= c && c <= 'Z') || ('0' <= c && c <= '9') || c
            == '-' || c == '_' || c == '.' || c == '/' || c == '=' || c == ':' || c == ',' || c
            == '@' || c == '%' || c == '+';
        plain = plain && ok;
        if c == '\'' {
            quoted.append("'\\''");
        } else {
            quoted.push(c);
        }
        i += 1;
    }
    assert(chars@.take(i as int) =~= chars@);
    if plain {
        s.to_owned()
    } else {
        let mut out = "'".to_owned();
        out.append(quoted.as_str());
        out.append("'");
        out
    }
}

/// The command line that a list of arguments is shown as.
pub fn render_argv(argv: &Vec<String>) -> (r: String)
    ensures
        r@ == shown_command(op::texts(argv@)),
{
    let ghost all = op::texts(argv@);
    let mut out = String::new();
    let mut i: usize = 0;
    assert(out@ =~= shown_command(all.take(0)));
    while i < argv.len()
        invariant
            i <= argv@.len(),
            all == op::texts(argv@),
            out@ == shown_command(all.take(i as int)),
        decreases argv@.len() - i,
    {
        assert(all.take(i + 1).drop_last() =~= all.take(i as int));
        if i > 0 {
            out.append(" ");
        }
        out.append(show_arg(argv[i].as_str()).as_str());
        if i == 0 {
            assert(out@ =~= shown_arg(all[0]));
        }
        i += 1;
    }
    assert(all.take(i as int) =~= all);
    out
}

/// The first `n` arguments of a direct evaluation.
pub open spec fn argv_values(env: Fields, argv: Seq<ExprV>, n: nat) -> Result<
    Seq<Seq<char>>,
    EvalErrorV,
>
    decreases n,
{
    if n == 0 {
        Ok(Seq::empty())
    } else {
        match argv_values(env, argv, (n - 1) as nat) {
            Ok(done) => match eval::need_string(
                eval::eval(env, argv[n - 1]),
                "Eval.argv element"@,
            ) {
                Ok(s) => Ok(done.push(s)),
                Err(e) => Err(e),
            },
            Err(e) => Err(e),
        }
    }
}

fn eval_argv(env: &Vec<(String, Json)>, argv: &Vec<Expr>) -> (r: Result<Vec<String>, EvalError>)
    ensures
        match (r, argv_values(json::fields(env@), ir::exprs(argv@), argv@.len())) {
            (Ok(a), Ok(b)) => op::texts(a@) == b,
            (Err(a), Err(b)) => a@ == b,
            _ => false,
        },
{
    let ghost all = ir::exprs(argv@);
    let ghost e = json::fields(env@);
    let mut out: Vec<String> = Vec::new();
    let mut i: usize = 0;
    assert(op::texts(out@) =~= Seq::empty());
    while i < argv.len()
        invariant
            i <= argv@.len(),
            all == ir::exprs(argv@),
            e == json::fields(env@),
            argv_values(e, all, i as nat) == Ok::<Seq<Seq<char>>, EvalErrorV>(op::texts(out@)),
        decreases argv@.len() - i,
    {
        match string_expr(env, &argv[i], "Eval.argv element") {
            Ok(s) => {
                let ghost before = out@;
                out.push(s);
                assert(op::texts(out@) =~= op::texts(before).push(s@));
            },
            Err(x) => {
                proof {
                    argv_failure_stays(e, all, (i + 1) as nat, all.len());
                }
                return Err(x);
            },
        }
        i += 1;
    }
    Ok(out)
}

proof fn argv_failure_stays(env: Fields, argv: Seq<ExprV>, n: nat, more: nat)
    requires
        n <= more,
        argv_values(env, argv, n) is Err,
    ensures
        argv_values(env, argv, more) == argv_values(env, argv, n),
    decreases more,
{
    if n < more {
        argv_failure_stays(env, argv, n, (more - 1) as nat);
    }
}

/// What an instruction asks for.
pub enum WorkV {
    /// A variable takes a value.
    Bind(Seq<char>, JsonV),
    Effect(EffectV),
}

/// What an instruction asks for in an environment, at the place where it
/// would take effect.
pub open spec fn demanded(
    env: Fields,
    i: InstrV,
    hash: Seq<char>,
    site: EffectSite,
    path: effect::DynamicPathV,
) -> Result<WorkV, RunErrorV> {
    match i {
        InstrV::Let { out, expr } => match eval::eval(env, expr) {
            Ok(v) => Ok(WorkV::Bind(out, v)),
            Err(e) => Err(RunErrorV::Eval(e)),
        },
        InstrV::Infer { out, model, prompt, on_error, tools } => match eval::need_string(
            eval::eval(env, model),
            "Infer.model"@,
        ) {
            Ok(model) => match resolved(env, prompt) {
                Ok(prompt) => Ok(
                    WorkV::Effect(
                        EffectV::Infer {
                            out,
                            location: effect::located(hash, EffectKind::Infer, site, path),
                            model,
                            prompt,
                            tools,
                            on_error,
                        },
                    ),
                ),
                Err(e) => Err(e),
            },
            Err(e) => Err(RunErrorV::Eval(e)),
        },
        InstrV::Eval { out, request, require_approval } => match request {
            EvalRequestV::Shell { command } => match eval::need_string(
                eval::eval(env, command),
                "Eval.command"@,
            ) {
                Ok(command) => Ok(
                    WorkV::Effect(
                        EffectV::Eval {
                            out,
                            location: effect::located(hash, EffectKind::Eval, site, path),
                            command,
                            argv: None,
                            gated: require_approval,
                        },
                    ),
                ),
                Err(e) => Err(RunErrorV::Eval(e)),
            },
            EvalRequestV::Argv { argv } => match argv_values(env, argv, argv.len()) {
                Ok(values) => Ok(
                    WorkV::Effect(
                        EffectV::Eval {
                            out,
                            location: effect::located(hash, EffectKind::Eval, site, path),
                            command: shown_command(values),
                            argv: Some(values),
                            gated: require_approval,
                        },
                    ),
                ),
                Err(e) => Err(RunErrorV::Eval(e)),
            },
        },
        InstrV::Emit { event } => match eval::eval(env, event) {
            Ok(event) => Ok(WorkV::Effect(EffectV::Emit { event })),
            Err(e) => Err(RunErrorV::Eval(e)),
        },
        InstrV::Retrieve { out, query, kind, max_bytes, on_error } => match eval::need_string(
            eval::eval(env, query),
            "Retrieve.query"@,
        ) {
            Ok(query) => Ok(
                WorkV::Effect(
                    EffectV::Retrieve {
                        out,
                        location: effect::located(hash, EffectKind::Retrieve, site, path),
                        query,
                        kind,
                        max_bytes,
                        on_error,
                    },
                ),
            ),
            Err(e) => Err(RunErrorV::Eval(e)),
        },
        InstrV::Store { out, sink, op, id, item, on_error } => match eval::need_string(
            eval::eval(env, sink),
            "Store.sink"@,
        ) {
            Ok(sink) => match eval::eval(env, item) {
                Ok(item) => match store_target(env, id) {
                    Ok(id) => Ok(
                        WorkV::Effect(
                            EffectV::Store {
                                out,
                                location: effect::located(hash, EffectKind::Store, site, path),
                                sink,
                                op,
                                id,
                                item,
                                content_hash: digest::text_digest(json::json_text(item)),
                                on_error,
                            },
                        ),
                    ),
                    Err(e) => Err(RunErrorV::Eval(e)),
                },
                Err(e) => Err(RunErrorV::Eval(e)),
            },
            Err(e) => Err(RunErrorV::Eval(e)),
        },
        InstrV::Tool { out, name, arguments, on_error } => match eval::eval(env, arguments) {
            Ok(arguments) => Ok(
                WorkV::Effect(
                    EffectV::Tool {
                        out,
                        location: effect::located(hash, EffectKind::Tool, site, path),
                        name,
                        arguments,
                        on_error,
                    },
                ),
            ),
            Err(e) => Err(RunErrorV::Eval(e)),
        },
    }
}

/// The item that a store names, if it names one.
pub open spec fn store_target(env: Fields, id: Option<ExprV>) -> Result<
    Option<Seq<char>>,
    EvalErrorV,
> {
    match id {
        Some(e) => match eval::need_string(eval::eval(env, e), "Store.id"@) {
            Ok(s) => Ok(Some(s)),
            Err(x) => Err(x),
        },
        None => Ok(None),
    }
}

/// One step of a machine.
pub enum StepV {
    /// It moved on by itself.
    Moved(MachineV),
    /// It stands before an effect.
    Effect(MachineV, EffectV),
    /// It has returned.
    Complete(JsonV),
}

/// One step of a machine: the next instruction, or the end of the block.
#[verifier::opaque]
pub open spec fn stepped(m: MachineV, hash: Seq<char>) -> Result<StepV, RunErrorV> {
    match ir::block_at(m.program.blocks, m.block) {
        None => Err(RunErrorV::UnknownBlock(BlockId(m.block))),
        Some(b) => if 0 <= m.pc < b.instructions.len() {
            let site = EffectSite { block: BlockId(m.block), instruction_index: m.pc as usize };
            let after = visited(m, site);
            match demanded(
                m.env,
                b.instructions[m.pc],
                hash,
                site,
                effect::path_at(m.path, visits_at(m, site)),
            ) {
                Ok(WorkV::Bind(out, v)) => Ok(StepV::Moved(went_on(after, out, v))),
                Ok(WorkV::Effect(e)) => Ok(StepV::Effect(after, e)),
                Err(e) => Err(e),
            }
        } else {
            match transferred(m, b.terminator) {
                Ok(TransferV::Return(v)) => Ok(StepV::Complete(v)),
                Ok(TransferV::Goto(x)) => Ok(StepV::Moved(x)),
                Err(e) => Err(e),
            }
        },
    }
}

/// The machine after the instruction that it stands at gave a value.
pub open spec fn went_on(m: MachineV, out: Seq<char>, v: JsonV) -> MachineV {
    MachineV { env: json::put(m.env, out, v), pc: m.pc + 1, ..m }
}

/// One step of a machine.
#[derive(Debug)]
pub enum Step {
    Moved,
    Effect(Effect),
    Complete(Json),
}

/// A machine whose step failed.  The instruction that it stands at was
/// visited; nothing else has changed.
pub open spec fn failed(m: MachineV) -> MachineV {
    match ir::block_at(m.program.blocks, m.block) {
        Some(b) => if 0 <= m.pc < b.instructions.len() {
            visited(
                m,
                EffectSite { block: BlockId(m.block), instruction_index: m.pc as usize },
            )
        } else {
            m
        },
        None => m,
    }
}

/// Whether a step and the machine after it are as the model says.  A machine
/// that has returned stands where it stood.
pub open spec fn steps_to(
    r: Result<Step, RunError>,
    before: MachineV,
    after: MachineV,
    goal: Result<StepV, RunErrorV>,
) -> bool {
    match (r, goal) {
        (Ok(Step::Moved), Ok(StepV::Moved(m))) => after == m,
        (Ok(Step::Effect(e)), Ok(StepV::Effect(m, x))) => after == m && e@ == x,
        (Ok(Step::Complete(v)), Ok(StepV::Complete(x))) => after == before && v@ == x,
        (Err(e), Err(x)) => after == failed(before) && e@ == x,
        _ => false,
    }
}

/// What an instruction asks for.
enum Work {
    Bind(String, Json),
    Effect(Effect),
}

/// Finds what an instruction asks for.
#[verifier::rlimit(40)]
fn demand(
    env: &Vec<(String, Json)>,
    i: &Instr,
    hash: &str,
    site: EffectSite,
    path: effect::DynamicPath,
) -> (r: Result<Work, RunError>)
    ensures
        match (r, demanded(json::fields(env@), i@, hash@, site, path@)) {
            (Ok(Work::Bind(out, v)), Ok(WorkV::Bind(o, x))) => out@ == o && v@ == x,
            (Ok(Work::Effect(e)), Ok(WorkV::Effect(x))) => e@ == x,
            (Err(e), Err(x)) => e@ == x,
            _ => false,
        },
{
    let owned = hash.to_owned();
    match i {
        Instr::Let { out, expr } => match eval_expr(env, expr) {
            Ok(v) => Ok(Work::Bind(out.0.clone(), v)),
            Err(e) => Err(RunError::Eval(e)),
        },
        Instr::Infer { out, model, prompt, on_error, tools } => match string_expr(
            env,
            model,
            "Infer.model",
        ) {
            Ok(model) => match resolve_prompt(env, prompt) {
                Ok(prompt) => Ok(
                    Work::Effect(
                        Effect::Infer {
                            out: out.0.clone(),
                            location: effect_location(owned, EffectKind::Infer, site, path),
                            model,
                            prompt,
                            tools: copy_opt_strings(tools),
                            on_error: *on_error,
                        },
                    ),
                ),
                Err(e) => Err(e),
            },
            Err(e) => Err(RunError::Eval(e)),
        },
        Instr::Eval { out, request, require_approval } => match request {
            EvalRequest::Shell { command } => match string_expr(env, command, "Eval.command") {
                Ok(command) => Ok(
                    Work::Effect(
                        Effect::Eval {
                            out: out.0.clone(),
                            location: effect_location(owned, EffectKind::Eval, site, path),
                            command,
                            argv: None,
                            gated: *require_approval,
                        },
                    ),
                ),
                Err(e) => Err(RunError::Eval(e)),
            },
            EvalRequest::Argv { argv } => match eval_argv(env, argv) {
                Ok(values) => Ok(
                    Work::Effect(
                        Effect::Eval {
                            out: out.0.clone(),
                            location: effect_location(owned, EffectKind::Eval, site, path),
                            command: render_argv(&values),
                            argv: Some(values),
                            gated: *require_approval,
                        },
                    ),
                ),
                Err(e) => Err(RunError::Eval(e)),
            },
        },
        Instr::Emit { event } => match eval_expr(env, event) {
            Ok(event) => Ok(Work::Effect(Effect::Emit { event })),
            Err(e) => Err(RunError::Eval(e)),
        },
        Instr::Retrieve { out, query, kind, max_bytes, on_error } => match string_expr(
            env,
            query,
            "Retrieve.query",
        ) {
            Ok(query) => Ok(
                Work::Effect(
                    Effect::Retrieve {
                        out: out.0.clone(),
                        location: effect_location(owned, EffectKind::Retrieve, site, path),
                        query,
                        kind: *kind,
                        max_bytes: *max_bytes,
                        on_error: *on_error,
                    },
                ),
            ),
            Err(e) => Err(RunError::Eval(e)),
        },
        Instr::Store { out, sink, op, id, item, on_error } => match string_expr(
            env,
            sink,
            "Store.sink",
        ) {
            Ok(sink) => match eval_expr(env, item) {
                Ok(item) => {
                    let target = match id {
                        Some(e) => match string_expr(env, e, "Store.id") {
                            Ok(s) => Some(s),
                            Err(x) => {
                                return Err(RunError::Eval(x));
                            },
                        },
                        None => None,
                    };
                    let content_hash = digest_of(item.to_text().as_str());
                    Ok(
                        Work::Effect(
                            Effect::Store {
                                out: out.0.clone(),
                                location: effect_location(owned, EffectKind::Store, site, path),
                                sink,
                                op: *op,
                                id: target,
                                item,
                                content_hash,
                                on_error: *on_error,
                            },
                        ),
                    )
                },
                Err(e) => Err(RunError::Eval(e)),
            },
            Err(e) => Err(RunError::Eval(e)),
        },
        Instr::Tool { out, name, arguments, on_error } => match eval_expr(env, arguments) {
            Ok(arguments) => Ok(
                Work::Effect(
                    Effect::Tool {
                        out: out.0.clone(),
                        location: effect_location(owned, EffectKind::Tool, site, path),
                        name: name.clone(),
                        arguments,
                        on_error: *on_error,
                    },
                ),
            ),
            Err(e) => Err(RunError::Eval(e)),
        },
    }
}

proof fn bind_failure_stays(
    env: Fields,
    params: Seq<Seq<char>>,
    args: Seq<ExprV>,
    n: nat,
    more: nat,
)
    requires
        n <= more,
        bound(env, params, args, n) is Err,
    ensures
        bound(env, params, args, more) == bound(env, params, args, n),
    decreases more,
{
    if n < more {
        bind_failure_stays(env, params, args, n, (more - 1) as nat);
    }
}

/// Binds parameters to the values of their arguments.
fn bind_params(env: &Vec<(String, Json)>, params: &Vec<ir::Var>, args: &Vec<Expr>) -> (r: Result<
    Vec<(String, Json)>,
    EvalError,
>)
    requires
        params@.len() == args@.len(),
    ensures
        match (
            r,
            bound(json::fields(env@), ir::var_names(params@), ir::exprs(args@), args@.len()),
        ) {
            (Ok(a), Ok(b)) => json::fields(a@) == b,
            (Err(a), Err(b)) => a@ == b,
            _ => false,
        },
{
    let ghost e = json::fields(env@);
    let ghost ps = ir::var_names(params@);
    let ghost xs = ir::exprs(args@);
    let mut out = copy_fields(env);
    let mut i: usize = 0;
    while i < args.len()
        invariant
            i <= args@.len(),
            params@.len() == args@.len(),
            e == json::fields(env@),
            ps == ir::var_names(params@),
            xs == ir::exprs(args@),
            bound(e, ps, xs, i as nat) == Ok::<Fields, EvalErrorV>(json::fields(out@)),
        decreases args@.len() - i,
    {
        match eval_expr(env, &args[i]) {
            Ok(v) => {
                put_field(&mut out, params[i].0.clone(), v);
            },
            Err(x) => {
                proof {
                    bind_failure_stays(e, ps, xs, (i + 1) as nat, xs.len());
                }
                return Err(x);
            },
        }
        i += 1;
    }
    Ok(out)
}

/// How the end of a block goes on.
enum Exit {
    Return(Json),
    Goto { to: BlockId, args: Vec<Expr>, arm: u32 },
}

/// The transfer that an exit stands for.
spec fn exit_of(m: MachineV, x: Exit) -> Result<TransferV, RunErrorV> {
    match x {
        Exit::Return(v) => Ok(TransferV::Return(v@)),
        Exit::Goto { to, args, arm } => going(entered(m, to.0, ir::exprs(args@), arm)),
    }
}

fn fitting_arm(v: &Json, arms: &Vec<MatchArm>) -> (r: Option<usize>)
    ensures
        match r {
            Some(i) => i < arms@.len() && first_fit(v@, ir::match_arms(arms@), 0) == Some(i as int),
            None => first_fit(v@, ir::match_arms(arms@), 0) is None,
        },
{
    let ghost all = ir::match_arms(arms@);
    let mut i: usize = 0;
    while i < arms.len()
        invariant
            i <= arms@.len(),
            all == ir::match_arms(arms@),
            first_fit(v@, all, 0) == first_fit(v@, all, i as int),
        decreases arms@.len() - i,
    {
        if pattern_matches(v, &arms[i].pattern) {
            return Some(i);
        }
        i += 1;
    }
    None
}

fn exit(env: &Vec<(String, Json)>, t: &Terminator, Ghost(m): Ghost<MachineV>) -> (r: Result<
    Exit,
    RunError,
>)
    requires
        m.env == json::fields(env@),
    ensures
        match r {
            Ok(x) => transferred(m, t@) == exit_of(m, x),
            Err(e) => transferred(m, t@) == Err::<TransferV, RunErrorV>(e@),
        },
{
    match t {
        Terminator::Return { value } => match eval_expr(env, value) {
            Ok(v) => Ok(Exit::Return(v)),
            Err(e) => Err(RunError::Eval(e)),
        },
        Terminator::Goto { block, args } => Ok(
            Exit::Goto { to: *block, args: ir::copy_exprs(args), arm: 0 },
        ),
        Terminator::If { cond, then_block, then_args, else_block, else_args } => match eval_expr(
            env,
            cond,
        ) {
            Ok(Json::Bool(b)) => {
                if b {
                    Ok(Exit::Goto { to: *then_block, args: ir::copy_exprs(then_args), arm: 0 })
                } else {
                    Ok(Exit::Goto { to: *else_block, args: ir::copy_exprs(else_args), arm: 1 })
                }
            },
            Ok(other) => Err(RunError::IfNotBool(other)),
            Err(e) => Err(RunError::Eval(e)),
        },
        Terminator::Match { value, arms, default, default_args } => match eval_expr(env, value) {
            Ok(v) => match fitting_arm(&v, arms) {
                Some(i) => {
                    if i > u32::MAX as usize {
                        return Err(RunError::TooManyArms);
                    }
                    Ok(
                        Exit::Goto {
                            to: arms[i].block,
                            args: ir::copy_exprs(&arms[i].args),
                            arm: i as u32,
                        },
                    )
                },
                None => match default {
                    Some(to) => {
                        if arms.len() > u32::MAX as usize {
                            return Err(RunError::TooManyArms);
                        }
                        Ok(
                            Exit::Goto {
                                to: *to,
                                args: ir::copy_exprs(default_args),
                                arm: arms.len() as u32,
                            },
                        )
                    },
                    None => Err(RunError::NoArm(v)),
                },
            },
            Err(e) => Err(RunError::Eval(e)),
        },
        Terminator::Par { .. } => Err(RunError::ParNotImplemented),
    }
}

impl Machine {
    /// A machine at the entry of a program.
    pub fn new(program: Program, env: Vec<(String, Json)>) -> (r: Machine)
        ensures
            r@ == (MachineV {
                program: program@,
                block: program@.entry,
                pc: 0,
                env: json::fields(env@),
                visits: Map::empty(),
                path: ControlPathV { digest: Seq::empty(), transitions: 0 },
            }),
    {
        let block = program.entry;
        let effect_visits: Vec<(String, u64)> = Vec::new();
        assert(table::entries(effect_visits@) =~= Map::empty());
        Machine { program, block, pc: 0, env, effect_visits, control_path: ControlPath::new() }
    }

    /// Counts a visit of an instruction; gives the count before.
    pub fn next_visit(&mut self, site: EffectSite) -> (r: u64)
        ensures
            r == visits_at(old(self)@, site),
            final(self)@ == visited(old(self)@, site),
    {
        let key = site_key(site);
        let seen: u64 = match get_entry(&self.effect_visits, key.as_str()) {
            Some(n) => *n,
            None => 0,
        };
        let next: u64 = if seen == u64::MAX {
            u64::MAX
        } else {
            seen + 1
        };
        set_entry(&mut self.effect_visits, key, next);
        seen
    }

    /// Takes back the last visit of an instruction.
    pub fn rewind_visit(&mut self, site: EffectSite)
        ensures
            final(self)@ == rewound(old(self)@, site),
    {
        let key = site_key(site);
        let seen: u64 = match get_entry(&self.effect_visits, key.as_str()) {
            Some(n) => *n,
            None => {
                return ;
            },
        };
        let less: u64 = if seen == 0 {
            0
        } else {
            seen - 1
        };
        set_entry(&mut self.effect_visits, key, less);
    }

    /// Transfers control to a block: its parameters are bound to the values of
    /// the arguments, all in the environment before, and the transition is
    /// folded into the control path.  Where that fails, nothing has changed.
    pub fn goto_block(&mut self, to: BlockId, args: &Vec<Expr>, arm: u32) -> (r: Result<
        (),
        RunError,
    >)
        ensures
            match (r, entered(old(self)@, to.0, ir::exprs(args@), arm)) {
                (Ok(_), Ok(m)) => final(self)@ == m,
                (Err(e), Err(x)) => e@ == x && final(self)@ == old(self)@,
                _ => false,
            },
    {
        let target = match self.program.block(to) {
            Some(b) => b,
            None => {
                return Err(RunError::UnknownBlock(to));
            },
        };
        if target.params.len() != args.len() {
            return Err(
                RunError::ArgCount { block: to, expected: target.params.len(), got: args.len() },
            );
        }
        let env = match bind_params(&self.env, &target.params, args) {
            Ok(env) => env,
            Err(e) => {
                return Err(RunError::Eval(e));
            },
        };
        self.control_path.transition(self.block, arm, to);
        self.block = to;
        self.pc = 0;
        self.env = env;
        Ok(())
    }

    /// Takes one step: carries out the next instruction as far as it needs no
    /// effect, or the end of the block.  Every step counts against an
    /// instruction limit, also one that only moves between blocks.
    pub fn step(&mut self, hash: &str) -> (r: Result<Step, RunError>)
        ensures
            steps_to(r, old(self)@, final(self)@, stepped(old(self)@, hash@)),
            final(self)@.program == old(self)@.program,
            r matches Ok(Step::Effect(_)) ==> final(self).pc < usize::MAX,
    {
        reveal(stepped);
        let ghost before = self@;
        let block = match self.program.block(self.block) {
            Some(b) => b,
            None => {
                return Err(RunError::UnknownBlock(self.block));
            },
        };
        if self.pc < block.instructions.len() {
            assert(ir::instrs(block.instructions@)[self.pc as int]
                == block.instructions@[self.pc as int]@);
            let instr = block.instructions[self.pc].clone();
            let site = EffectSite { block: self.block, instruction_index: self.pc };
            let visit = self.next_visit(site);
            let path = self.control_path.at_visit(visit);
            match demand(&self.env, &instr, hash, site, path) {
                Ok(Work::Bind(out, v)) => {
                    put_field(&mut self.env, out, v);
                    self.pc = self.pc + 1;
                    Ok(Step::Moved)
                },
                Ok(Work::Effect(e)) => Ok(Step::Effect(e)),
                Err(e) => Err(e),
            }
        } else {
            match exit(&self.env, &block.terminator, Ghost(before)) {
                Ok(Exit::Return(v)) => Ok(Step::Complete(v)),
                Ok(Exit::Goto { to, args, arm }) => match self.goto_block(to, &args, arm) {
                    Ok(_) => Ok(Step::Moved),
                    Err(e) => Err(e),
                },
                Err(e) => Err(e),
            }
        }
    }
}

} // verus!
