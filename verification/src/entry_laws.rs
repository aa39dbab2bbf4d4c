//! What callers get from the functions that start runs, look up models and make
//! sections.
use crate::codec;
use crate::digest;
use crate::driver::Driver;
use crate::embedding::EmbeddingIndex;
use crate::hydration::SourceResult;
use crate::ir_agent;
use crate::ir_agent::LoopRun;
use crate::ir_flow;
use crate::ir_hash;
use crate::json;
use crate::json::{Json, JsonV};
use crate::machine::{Machine, RunError};
use crate::models;
use crate::models::{ModelError, ModelRegistry, ResolvedModel};
use crate::op;
use crate::op::{Model, Prompt};
use crate::prompt_ir;
use crate::prompt_ir::{
    CompositionMode, Priority, PromptIR, PromptIRTrace, RetrievalTiming, Section, SectionOriginV,
    SectionRole,
};
use crate::provider;
use crate::provider::{ProviderError, ProviderErrorV, Raised, ToolSpec};
use crate::repair_laws;
use crate::table;
use crate::tool;
use crate::tools;
use crate::tools::StandardTool;
use vstd::prelude::*;

verus! {

/// A run of a valid program starts with its machine, the hash of its program, its
/// name and its limit, and has carried out nothing; a program that is not valid is
/// refused with what is wrong with it.
pub proof fn runs_start_with_nothing_done(
    machine: Machine,
    run_id: String,
    limit: Option<usize>,
    r: Result<Driver, RunError>,
)
    requires
        call_ensures(Driver::start, (machine, run_id, limit), r),
    ensures
        r is Ok <==> ir_flow::valid(machine@.program),
        r matches Ok(d) ==> d@.machine == machine@ && d@.hash == ir_hash::program_digest(
            machine@.program,
        ) && d@.run_id == run_id@ && d@.limit == limit && d@.executed == 0 && d@.last_turn is None,
        r matches Err(e) ==> (e matches RunError::Invalid(x) && ir_flow::is_wrong(
            machine@.program,
            x@,
        )),
{
}

/// A loop starts with the messages of its prompt as its history and with all of its
/// turns; the plain one has neither a memory nor tools nor a gate.
pub proof fn loops_start_with_their_prompt(
    model: Model,
    prompt: &Prompt,
    max_turns: usize,
    r: Machine,
)
    requires
        call_ensures(ir_agent::agent_loop_ir, (model, prompt, max_turns), r),
    ensures
        r@.block == 0 && r@.pc == 0,
        json::lookup(r@.env, "history"@) == Some(codec::messages_json(op::messages(prompt@))),
        json::lookup(r@.env, "turns_left"@) == Some(JsonV::Int(max_turns as int)),
        exists|c: ir_agent::LoopShapeV| #[trigger]
            ir_agent::loop_program(c) == r@.program && c.model == model.0@ && !c.memory_tools
                && c.native_tools.len() == 0 && !c.shell_requires_approval,
{
    let c = ir_agent::LoopShapeV {
        model: model.0@,
        memory_tools: false,
        native_tools: Seq::empty(),
        shell_requires_approval: false,
    };
    repair_laws::loops_start_with_their_history(
        c,
        codec::messages_json(op::messages(prompt@)),
        max_turns,
    );
    assert(ir_agent::loop_program(c) == r@.program);
}

/// A run of a loop that goes on from another one keeps the visits of that one.
pub proof fn loops_carry_their_visits(
    run: &LoopRun,
    prompt: &Prompt,
    visits: Vec<(String, u64)>,
    r: Machine,
)
    requires
        ir_agent::fits(run.shape@),
        call_ensures(LoopRun::begin, (run, prompt, visits), r),
    ensures
        r@.visits == table::entries(visits@),
        r@.block == 0 && r@.pc == 0,
        json::lookup(r@.env, "history"@) == Some(codec::messages_json(op::messages(prompt@))),
        json::lookup(r@.env, "turns_left"@) == Some(JsonV::Int(run.max_turns as int)),
{
    repair_laws::loops_start_with_their_history(
        run.shape@,
        codec::messages_json(op::messages(prompt@)),
        run.max_turns,
    );
}

/// A model is found under its alias with the key that its entry gives: the one that
/// stands there, or the value of the variable that it names.  A variable without a
/// value is told by its name.
pub proof fn models_are_found_with_their_key(
    known: &ModelRegistry,
    requested: Option<&str>,
    value: Option<String>,
    r: Result<ResolvedModel, ModelError>,
    i: int,
)
    requires
        call_ensures(ModelRegistry::resolve, (known, requested, value), r),
        0 <= i < known.models@.len(),
        forall|j: int| 0 <= j < i ==> (#[trigger] known.models@[j]).name@ != known.models@[i].name@,
        (match requested {
            Some(s) => s@,
            None => known.default_model@,
        }) == known.models@[i].name@,
    ensures
        ({
            let e = known.models@[i]@;
            &&& r matches Ok(m) ==> m@.alias == e.name && m@.provider == Some(e.provider)
                && m@.base_url == e.base_url && (e.api_id matches Some(id) ==> m@.api_id == id) && (
            e.api_id is None ==> m@.api_id == e.name)
            &&& e.api_key is None ==> (r matches Ok(m) && m@.api_key is None)
            &&& e.api_key matches Some(k) ==> {
                &&& k.len() > 0 && k[0] != '$' ==> (r matches Ok(m) && m@.api_key == Some(k))
                &&& k.len() > 1 && k[0] == '$' && k[1] != '$' ==> {
                    &&& value matches Some(v) ==> (r matches Ok(m) && m@.api_key == Some(v@))
                    &&& value is None ==> (r matches Err(ModelError::Unset(n)) && n@ == k.drop_first())
                }
                &&& k.len() == 1 && k[0] == '$' ==> (r matches Err(x) && x is EmptyReference)
            }
        }),
{
    let list = models::entries(known.models@);
    let e = list[i];
    assert forall|j: int| 0 <= j < i implies (#[trigger] list[j]).name != list[i].name by {
        assert(known.models@[j].name@ != known.models@[i].name@);
    }
    crate::word_laws::aliases_stand_for_their_entry(list, i, None);
    if let Some(k) = e.api_key {
        crate::word_laws::aliases_stand_for_their_entry(list, i, Some(k));
        if let Some(v) = value {
            crate::word_laws::aliases_stand_for_their_entry(list, i, Some(v@));
        }
        if k.len() > 0 && k[0] == '$' {
            let rest = k.drop_first();
            assert(models::without_dollars(k) == models::without_dollars(rest));
            if k.len() > 1 && k[1] != '$' {
                assert(rest[0] == k[1]);
                assert(models::without_dollars(rest) == rest);
            }
            if k.len() == 1 {
                assert(models::without_dollars(rest).len() == 0);
            }
        }
    }
}

/// What a trace says of a prompt: its identity, its hash, what it takes and how it
/// was planned, and one summary for each section, in their order.
pub proof fn traces_show_their_prompt(p: &PromptIR, whole: bool, r: PromptIRTrace, i: int)
    requires
        call_ensures(PromptIR::trace, (p, whole), r),
    ensures
        r@.prompt_id == p@.id,
        r@.prompt_hash == p@.meta.prompt_hash,
        r@.total_tokens == p@.meta.total_tokens,
        r@.budget == p@.meta.budget,
        r@.strategy == p@.meta.strategy,
        r@.sections.len() == p@.sections.len(),
        0 <= i < p@.sections.len() ==> {
            let s = p@.sections[i];
            let t = r@.sections[i];
            &&& t.section_id == s.id && t.label == s.label && t.source == s.source
            &&& t.role == s.role && t.priority == s.priority && t.composition == s.composition
            &&& t.tokens == s.tokens && t.hash == s.hash
            &&& t.content_preview.is_prefix_of(s.content) && t.content_preview.len() <= 512
            &&& whole ==> t.content == Some(s.content)
            &&& !whole ==> t.content is None
        },
{
    if 0 <= i < p@.sections.len() {
        crate::text_laws::cuts_keep_the_start(p@.sections[i].content, 512);
    }
}

/// Recent history becomes a section of high priority that joins the context; what a
/// source gives back becomes one of medium priority, under the name of the source.
pub proof fn sections_say_where_they_come_from(
    id: &str,
    label: &str,
    content: String,
    recent: Section,
    result: SourceResult,
    timing: RetrievalTiming,
    query: Option<String>,
    score: Option<String>,
    found: Section,
)
    requires
        call_ensures(Section::passive_temporal, (id, label, content), recent),
        call_ensures(Section::from_source_result, (id, result, timing, query, score), found),
    ensures
        recent@.id == id@ && recent@.label == label@ && recent@.content == content@,
        recent@.role == SectionRole::Context && recent@.priority == Priority::High,
        recent@.composition == CompositionMode::Contextual,
        recent@.hash == digest::tagged_digest(content@),
        recent@.relevance is None,
        found@.id == id@ && found@.label == result@.source && found@.content == result@.content,
        found@.role == SectionRole::Context && found@.priority == Priority::Medium,
        found@.composition == CompositionMode::Additive,
        found@.hash == digest::tagged_digest(result@.content),
        found@.relevance == op::opt_text(score),
        found@.metadata == result@.metadata,
        found@.source.timing == timing,
        found@.source.origin matches SectionOriginV::Retrieval {
            backend,
            mode,
            query: q,
            key,
            score: s,
        } && backend == result@.source && mode == prompt_ir::mode_of(result@.kind) && q
            == op::opt_text(query) && key is None && s == op::opt_text(score),
{
}

/// All tools are offered where nothing narrows them, and only the listed ones where
/// something does.
pub proof fn offers_follow_the_list(
    specs: &Vec<ToolSpec>,
    names: &Option<Vec<String>>,
    r: Vec<ToolSpec>,
)
    requires
        call_ensures(tool::offered, (specs, names), r),
    ensures
        *names is None ==> provider::tool_specs(r@) == provider::tool_specs(specs@),
        *names matches Some(l) ==> provider::tool_specs(r@) == tool::narrowed(
            provider::tool_specs(specs@),
            op::texts(l@),
        ),
{
}

/// The standard tools, in their order and under their names.
pub proof fn standard_tools_stand_in_order(r: Vec<(String, StandardTool)>)
    requires
        call_ensures(tools::standard_tools, (), r),
    ensures
        r@.len() == 4,
        r@[0].0@ == "shell"@ && r@[0].1 == StandardTool::Shell,
        r@[1].0@ == "skill"@ && r@[1].1 == StandardTool::Skill,
        r@[2].0@ == "notify"@ && r@[2].1 == StandardTool::Notify,
        r@[3].0@ == "stop"@ && r@[3].1 == StandardTool::Stop,
{
    assert(r@[0].1 == tools::standard()[0]);
    assert(r@[1].1 == tools::standard()[1]);
    assert(r@[2].1 == tools::standard()[2]);
    assert(r@[3].1 == tools::standard()[3]);
}

/// The shell takes its command from its arguments, where it is a text.
pub proof fn commands_come_from_their_arguments(args: &Json, r: Result<String, String>)
    requires
        call_ensures(tools::shell_command, (args,), r),
    ensures
        args@.field("command"@) matches Some(JsonV::Str(s)) ==> (r matches Ok(t) && t@ == s),
        args@.field("command"@) is None ==> r is Err,
        r matches Err(e) ==> e@ == "shell.command must be a string"@,
{
}

/// The text of a memory is handed out to be embedded exactly where its vector is not
/// known: name, description and body, one under the other.
pub proof fn unknown_memories_are_embedded(
    x: &EmbeddingIndex,
    name: &str,
    description: &str,
    body: &str,
    r: Option<String>,
)
    requires
        call_ensures(EmbeddingIndex::to_embed, (x, name, description, body), r),
    ensures
        r matches Some(t) ==> t@ == name@ + "\n"@ + description@ + "\n"@ + body@,
        r is None ==> x@.vectors.dom().contains(name@) && x@.vectors[name@].hash
            == digest::text_digest(name@ + "\n"@ + description@ + "\n"@ + body@),
        !x@.vectors.dom().contains(name@) ==> r is Some,
{
}

/// A failure is raised as an overflow exactly where it is one, with its status and
/// its text; any other keeps its words.
pub proof fn failures_keep_their_kind(e: ProviderError, r: Raised)
    requires
        call_ensures(ProviderError::raise, (e,), r),
    ensures
        e@ matches ProviderErrorV::ContextOverflow { status, text } ==> (r matches Raised::Overflow(x)
            && x.status == status && x.text@ == text),
        e@ !is ContextOverflow ==> (r matches Raised::Other(x) && provider::error_text(x) == Some(
            provider::provider_error_text(e@),
        )),
{
}

} // verus!
