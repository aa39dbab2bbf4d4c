//! Prompts in the making: what they are put together from, and how.
use crate::codec;
use crate::codec::add_field;
use crate::digest;
use crate::digest::tagged_digest_of;
use crate::hydration;
use crate::hydration::{bytes_of, SourceResult};
use crate::ir::{copy_strings, SourceKind};
use crate::ir_hash;
use crate::ir_hash::{encode_texts, record1, record3, record4, record5};
use crate::json;
use crate::json::{Json, JsonV};
use crate::op;
use crate::op::{
    copy_messages, copy_opt, join_texts, push_message, push_string, ChatMessage,
    ChatMessageV, Prompt, Said, ToolCall, ToolCallV,
};
use crate::text;
use crate::text::{char_is_space, chars_of, preview, same_text};
use vstd::prelude::*;

verus! {

broadcast use json::group_json;

/// How much of a section a trace shows.
pub const CONTENT_PREVIEW_CHARS: usize = 512;

/// The identity of a prompt.
#[derive(Debug)]
pub struct PromptId(pub String);

impl PromptId {
    pub open spec fn view(&self) -> Seq<char> {
        self.0@
    }
}

impl Clone for PromptId {
    fn clone(&self) -> (r: Self)
        ensures
            r@ == self@,
    {
        PromptId(self.0.clone())
    }
}

/// The identity of a section.
#[derive(Debug)]
pub struct SectionId(pub String);

impl SectionId {
    pub open spec fn view(&self) -> Seq<char> {
        self.0@
    }
}

impl Clone for SectionId {
    fn clone(&self) -> (r: Self)
        ensures
            r@ == self@,
    {
        SectionId(self.0.clone())
    }
}

/// The digest of a content.
#[derive(Debug)]
pub struct ContentHash(pub String);

impl ContentHash {
    pub open spec fn view(&self) -> Seq<char> {
        self.0@
    }
}

impl Clone for ContentHash {
    fn clone(&self) -> (r: Self)
        ensures
            r@ == self@,
    {
        ContentHash(self.0.clone())
    }
}

/// How many tokens a content is thought to take.
#[derive(Debug, Clone, Copy, PartialEq, Eq, Structural)]
pub struct TokenEstimate(pub usize);

/// How something was found.
#[derive(Debug, Clone, Copy, PartialEq, Eq, Structural)]
pub enum RetrievalMode {
    Temporal,
    Semantic,
}

/// When something was found.
#[derive(Debug, Clone, Copy, PartialEq, Eq, Structural)]
pub enum RetrievalTiming {
    Passive,
    Active,
}

/// Who a section speaks as.
#[derive(Debug, Clone, Copy, PartialEq, Eq, Structural)]
pub enum SectionRole {
    System,
    Developer,
    User,
    Assistant,
    Tool,
    Context,
}

/// How a section is put together with others.
#[derive(Debug, Clone, Copy, PartialEq, Eq, Structural)]
pub enum CompositionMode {
    Hierarchical,
    Constraint,
    Additive,
    Contextual,
}

/// How much a section matters.
#[derive(Debug, Clone, Copy, PartialEq, Eq, Structural)]
pub enum Priority {
    Low,
    Medium,
    High,
    Critical,
}

/// Where a section comes from.  A score is a decimal text.
#[derive(Debug)]
pub enum SectionOrigin {
    Static { name: String },
    Retrieval {
        backend: String,
        mode: RetrievalMode,
        query: Option<String>,
        key: Option<String>,
        score: Option<String>,
    },
    State { key: String },
    User,
    ToolResult,
}

/// The model of an origin.
pub enum SectionOriginV {
    Static { name: Seq<char> },
    Retrieval {
        backend: Seq<char>,
        mode: RetrievalMode,
        query: Option<Seq<char>>,
        key: Option<Seq<char>>,
        score: Option<Seq<char>>,
    },
    State { key: Seq<char> },
    User,
    ToolResult,
}

impl SectionOrigin {
    pub open spec fn view(&self) -> SectionOriginV {
        match self {
            SectionOrigin::Static { name } => SectionOriginV::Static { name: name@ },
            SectionOrigin::Retrieval {
                backend,
                mode,
                query,
                key,
                score,
            } => SectionOriginV::Retrieval {
                backend: backend@,
                mode: *mode,
                query: op::opt_text(*query),
                key: op::opt_text(*key),
                score: op::opt_text(*score),
            },
            SectionOrigin::State { key } => SectionOriginV::State { key: key@ },
            SectionOrigin::User => SectionOriginV::User,
            SectionOrigin::ToolResult => SectionOriginV::ToolResult,
        }
    }
}

impl Clone for SectionOrigin {
    fn clone(&self) -> (r: Self)
        ensures
            r@ == self@,
    {
        match self {
            SectionOrigin::Static { name } => SectionOrigin::Static { name: name.clone() },
            SectionOrigin::Retrieval {
                backend,
                mode,
                query,
                key,
                score,
            } => SectionOrigin::Retrieval {
                backend: backend.clone(),
                mode: *mode,
                query: copy_opt(query),
                key: copy_opt(key),
                score: copy_opt(score),
            },
            SectionOrigin::State { key } => SectionOrigin::State { key: key.clone() },
            SectionOrigin::User => SectionOrigin::User,
            SectionOrigin::ToolResult => SectionOrigin::ToolResult,
        }
    }
}

/// Where a section comes from, and when.
#[derive(Debug)]
pub struct SectionSource {
    pub origin: SectionOrigin,
    pub timing: RetrievalTiming,
    pub metadata: Json,
}

/// The model of a source.
pub struct SectionSourceV {
    pub origin: SectionOriginV,
    pub timing: RetrievalTiming,
    pub metadata: JsonV,
}

impl SectionSource {
    pub open spec fn view(&self) -> SectionSourceV {
        SectionSourceV {
            origin: self.origin@,
            timing: self.timing,
            metadata: self.metadata@,
        }
    }
}

impl Clone for SectionSource {
    fn clone(&self) -> (r: Self)
        ensures
            r@ == self@,
    {
        SectionSource {
            origin: self.origin.clone(),
            timing: self.timing,
            metadata: self.metadata.clone(),
        }
    }
}

/// A piece of a prompt.  A relevance is a decimal text, a time of last use the text of a date.
#[derive(Debug)]
pub struct Section {
    pub id: SectionId,
    pub label: String,
    pub source: SectionSource,
    pub role: SectionRole,
    pub content: String,
    pub tokens: TokenEstimate,
    pub priority: Priority,
    pub composition: CompositionMode,
    pub relevance: Option<String>,
    pub recency: Option<String>,
    pub hash: ContentHash,
    pub metadata: Json,
}

/// The model of a section.
pub struct SectionV {
    pub id: Seq<char>,
    pub label: Seq<char>,
    pub source: SectionSourceV,
    pub role: SectionRole,
    pub content: Seq<char>,
    pub tokens: TokenEstimate,
    pub priority: Priority,
    pub composition: CompositionMode,
    pub relevance: Option<Seq<char>>,
    pub recency: Option<Seq<char>>,
    pub hash: Seq<char>,
    pub metadata: JsonV,
}

impl Section {
    pub open spec fn view(&self) -> SectionV {
        SectionV {
            id: self.id@,
            label: self.label@,
            source: self.source@,
            role: self.role,
            content: self.content@,
            tokens: self.tokens,
            priority: self.priority,
            composition: self.composition,
            relevance: op::opt_text(self.relevance),
            recency: op::opt_text(self.recency),
            hash: self.hash@,
            metadata: self.metadata@,
        }
    }
}

impl Clone for Section {
    fn clone(&self) -> (r: Self)
        ensures
            r@ == self@,
    {
        Section {
            id: self.id.clone(),
            label: self.label.clone(),
            source: self.source.clone(),
            role: self.role,
            content: self.content.clone(),
            tokens: self.tokens,
            priority: self.priority,
            composition: self.composition,
            relevance: copy_opt(&self.relevance),
            recency: copy_opt(&self.recency),
            hash: self.hash.clone(),
            metadata: self.metadata.clone(),
        }
    }
}

/// A tool that a prompt offers.
#[derive(Debug)]
pub struct ToolDef {
    pub name: String,
    pub description: String,
    pub schema: Json,
    pub priority: Priority,
}

/// The model of a tool.
pub struct ToolDefV {
    pub name: Seq<char>,
    pub description: Seq<char>,
    pub schema: JsonV,
    pub priority: Priority,
}

impl ToolDef {
    pub open spec fn view(&self) -> ToolDefV {
        ToolDefV {
            name: self.name@,
            description: self.description@,
            schema: self.schema@,
            priority: self.priority,
        }
    }
}

/// What was last seen.
#[derive(Debug)]
pub struct Observation {
    pub content: String,
}

/// The model of an observation.
pub struct ObservationV {
    pub content: Seq<char>,
}

impl Observation {
    pub open spec fn view(&self) -> ObservationV {
        ObservationV {
            content: self.content@,
        }
    }
}

/// How a budget is shared out.  Ratios are decimal texts.
#[derive(Debug)]
pub enum BudgetAllocation {
    FixedRatios { system: String, context: String, observation: String },
    RelevanceWeighted,
    InformationWeighted,
}

/// The model of an allocation.
pub enum BudgetAllocationV {
    FixedRatios { system: Seq<char>, context: Seq<char>, observation: Seq<char> },
    RelevanceWeighted,
    InformationWeighted,
}

impl BudgetAllocation {
    pub open spec fn view(&self) -> BudgetAllocationV {
        match self {
            BudgetAllocation::FixedRatios {
                system,
                context,
                observation,
            } => BudgetAllocationV::FixedRatios {
                system: system@,
                context: context@,
                observation: observation@,
            },
            BudgetAllocation::RelevanceWeighted => BudgetAllocationV::RelevanceWeighted,
            BudgetAllocation::InformationWeighted => BudgetAllocationV::InformationWeighted,
        }
    }
}

impl Clone for BudgetAllocation {
    fn clone(&self) -> (r: Self)
        ensures
            r@ == self@,
    {
        match self {
            BudgetAllocation::FixedRatios {
                system,
                context,
                observation,
            } => BudgetAllocation::FixedRatios {
                system: system.clone(),
                context: context.clone(),
                observation: observation.clone(),
            },
            BudgetAllocation::RelevanceWeighted => BudgetAllocation::RelevanceWeighted,
            BudgetAllocation::InformationWeighted => BudgetAllocation::InformationWeighted,
        }
    }
}

/// How many tokens a prompt may take.  The ratio held back is a decimal text.
#[derive(Debug)]
pub struct TokenBudget {
    pub total: usize,
    pub reserve_ratio: String,
    pub allocation: BudgetAllocation,
}

/// The model of a budget.
pub struct TokenBudgetV {
    pub total: usize,
    pub reserve_ratio: Seq<char>,
    pub allocation: BudgetAllocationV,
}

impl TokenBudget {
    pub open spec fn view(&self) -> TokenBudgetV {
        TokenBudgetV {
            total: self.total,
            reserve_ratio: self.reserve_ratio@,
            allocation: self.allocation@,
        }
    }
}

impl Clone for TokenBudget {
    fn clone(&self) -> (r: Self)
        ensures
            r@ == self@,
    {
        TokenBudget {
            total: self.total,
            reserve_ratio: self.reserve_ratio.clone(),
            allocation: self.allocation.clone(),
        }
    }
}

/// What context is looked for.  The threshold is a decimal text.
#[derive(Debug)]
pub struct ContextStrategy {
    pub temporal_window: usize,
    pub semantic_limit: usize,
    pub semantic_threshold: String,
    pub enabled_backends: Vec<String>,
}

/// The model of a strategy.
pub struct ContextStrategyV {
    pub temporal_window: usize,
    pub semantic_limit: usize,
    pub semantic_threshold: Seq<char>,
    pub enabled_backends: Seq<Seq<char>>,
}

impl ContextStrategy {
    pub open spec fn view(&self) -> ContextStrategyV {
        ContextStrategyV {
            temporal_window: self.temporal_window,
            semantic_limit: self.semantic_limit,
            semantic_threshold: self.semantic_threshold@,
            enabled_backends: op::texts(self.enabled_backends@),
        }
    }
}

impl Clone for ContextStrategy {
    fn clone(&self) -> (r: Self)
        ensures
            r@ == self@,
    {
        ContextStrategy {
            temporal_window: self.temporal_window,
            semantic_limit: self.semantic_limit,
            semantic_threshold: self.semantic_threshold.clone(),
            enabled_backends: copy_strings(&self.enabled_backends),
        }
    }
}

/// What context is asked for.
#[derive(Debug)]
pub struct ContextRequest {
    pub observation: String,
    pub goal: Option<String>,
    pub strategy: ContextStrategy,
    pub budget: TokenBudget,
}

/// The model of a request.
pub struct ContextRequestV {
    pub observation: Seq<char>,
    pub goal: Option<Seq<char>>,
    pub strategy: ContextStrategyV,
    pub budget: TokenBudgetV,
}

impl ContextRequest {
    pub open spec fn view(&self) -> ContextRequestV {
        ContextRequestV {
            observation: self.observation@,
            goal: op::opt_text(self.goal),
            strategy: self.strategy@,
            budget: self.budget@,
        }
    }
}

/// What is known of a prompt.  The timestamp is nanoseconds since the Unix epoch.
#[derive(Debug)]
pub struct PromptMeta {
    pub total_tokens: TokenEstimate,
    pub budget: TokenBudget,
    pub strategy: ContextStrategy,
    pub timestamp: i128,
    pub prompt_hash: ContentHash,
}

/// The model of what is known of a prompt.
pub struct PromptMetaV {
    pub total_tokens: TokenEstimate,
    pub budget: TokenBudgetV,
    pub strategy: ContextStrategyV,
    pub timestamp: i128,
    pub prompt_hash: Seq<char>,
}

impl PromptMeta {
    pub open spec fn view(&self) -> PromptMetaV {
        PromptMetaV {
            total_tokens: self.total_tokens,
            budget: self.budget@,
            strategy: self.strategy@,
            timestamp: self.timestamp,
            prompt_hash: self.prompt_hash@,
        }
    }
}

/// Some sections.
pub open spec fn sections(list: Seq<Section>) -> Seq<SectionV> {
    Seq::new(list.len(), |i: int| list[i]@)
}

/// Some tools.
pub open spec fn tool_defs(list: Seq<ToolDef>) -> Seq<ToolDefV> {
    Seq::new(list.len(), |i: int| list[i]@)
}

/// Some summaries.
pub open spec fn summaries(list: Seq<SectionSummary>) -> Seq<SectionSummaryV> {
    Seq::new(list.len(), |i: int| list[i]@)
}

/// The model of an optional value.
pub open spec fn opt_observation(x: Option<Observation>) -> Option<ObservationV> {
    match x {
        Some(v) => Some(v@),
        None => None,
    }
}


/// A prompt in the making.
#[derive(Debug)]
pub struct PromptIR {
    pub id: PromptId,
    pub base_messages: Vec<ChatMessage>,
    pub sections: Vec<Section>,
    pub tools: Vec<ToolDef>,
    pub observation: Option<Observation>,
    pub meta: PromptMeta,
}

/// The model of a prompt in the making.
pub struct PromptIRV {
    pub id: Seq<char>,
    pub base_messages: Seq<ChatMessageV>,
    pub sections: Seq<SectionV>,
    pub tools: Seq<ToolDefV>,
    pub observation: Option<ObservationV>,
    pub meta: PromptMetaV,
}

impl PromptIR {
    pub open spec fn view(&self) -> PromptIRV {
        PromptIRV {
            id: self.id@,
            base_messages: op::messages(self.base_messages@),
            sections: sections(self.sections@),
            tools: tool_defs(self.tools@),
            observation: opt_observation(self.observation),
            meta: self.meta@,
        }
    }
}

/// What a trace says of a section.
#[derive(Debug)]
pub struct SectionSummary {
    pub section_id: SectionId,
    pub label: String,
    pub source: SectionSource,
    pub role: SectionRole,
    pub priority: Priority,
    pub composition: CompositionMode,
    pub tokens: TokenEstimate,
    pub hash: ContentHash,
    pub content_preview: String,
    pub content: Option<String>,
}

/// The model of a summary.
pub struct SectionSummaryV {
    pub section_id: Seq<char>,
    pub label: Seq<char>,
    pub source: SectionSourceV,
    pub role: SectionRole,
    pub priority: Priority,
    pub composition: CompositionMode,
    pub tokens: TokenEstimate,
    pub hash: Seq<char>,
    pub content_preview: Seq<char>,
    pub content: Option<Seq<char>>,
}

impl SectionSummary {
    pub open spec fn view(&self) -> SectionSummaryV {
        SectionSummaryV {
            section_id: self.section_id@,
            label: self.label@,
            source: self.source@,
            role: self.role,
            priority: self.priority,
            composition: self.composition,
            tokens: self.tokens,
            hash: self.hash@,
            content_preview: self.content_preview@,
            content: op::opt_text(self.content),
        }
    }
}

/// What a trace says of a prompt.
#[derive(Debug)]
pub struct PromptIRTrace {
    pub prompt_id: PromptId,
    pub prompt_hash: ContentHash,
    pub total_tokens: TokenEstimate,
    pub budget: TokenBudget,
    pub strategy: ContextStrategy,
    pub sections: Vec<SectionSummary>,
}

/// The model of a prompt trace.
pub struct PromptIRTraceV {
    pub prompt_id: Seq<char>,
    pub prompt_hash: Seq<char>,
    pub total_tokens: TokenEstimate,
    pub budget: TokenBudgetV,
    pub strategy: ContextStrategyV,
    pub sections: Seq<SectionSummaryV>,
}

impl PromptIRTrace {
    pub open spec fn view(&self) -> PromptIRTraceV {
        PromptIRTraceV {
            prompt_id: self.prompt_id@,
            prompt_hash: self.prompt_hash@,
            total_tokens: self.total_tokens,
            budget: self.budget@,
            strategy: self.strategy@,
            sections: summaries(self.sections@),
        }
    }
}

/// The prompt takes more tokens than can be counted.
#[derive(Debug, Clone, Copy, PartialEq, Eq, Structural)]
pub struct TooManyTokens;

/// Whether a word starts at place `i`.
pub open spec fn starts_word(s: Seq<char>, i: int) -> bool {
    !text::is_space(s[i]) && (i == 0 || text::is_space(s[i - 1]))
}

/// How many words start before place `n`.
pub open spec fn words_before(s: Seq<char>, n: nat) -> nat
    decreases n,
{
    if n == 0 || n > s.len() {
        0
    } else {
        words_before(s, (n - 1) as nat) + (if starts_word(s, n - 1) {
            1nat
        } else {
            0
        })
    }
}

/// How many tokens a text is thought to take: its words, or a quarter of its
/// bytes, whichever is more, and never none.
pub open spec fn estimate(s: Seq<char>) -> nat {
    let words = words_before(s, s.len());
    let quarter = hydration::byte_len(s) / 4;
    let most = if words > quarter {
        words
    } else {
        quarter
    };
    if most == 0 {
        1
    } else {
        most
    }
}

/// How many tokens a text is thought to take.
pub fn estimate_tokens(content: &str) -> (r: usize)
    ensures
        r == estimate(content@),
{
    let s = chars_of(content);
    let mut words: usize = 0;
    let mut i: usize = 0;
    let mut inside = false;
    while i < s.len()
        invariant
            i <= s@.len(),
            s@ == content@,
            words <= i,
            words == words_before(s@, i as nat),
            inside == (i > 0 && !text::is_space(s@[i - 1])),
        decreases s@.len() - i,
    {
        if char_is_space(s[i]) {
            inside = false;
        } else {
            if !inside {
                words += 1;
            }
            inside = true;
        }
        i += 1;
    }
    let quarter = bytes_of(content) / 4;
    let most = if words > quarter {
        words
    } else {
        quarter
    };
    if most == 0 {
        1
    } else {
        most
    }
}

/// Every text takes at least one token.
pub proof fn estimates_are_positive(s: Seq<char>)
    ensures
        estimate(s) >= 1,
        estimate(s) >= hydration::byte_len(s) / 4,
        estimate(s) >= words_before(s, s.len()),
{
}

/// What the first `n` messages are thought to take.
pub open spec fn prompt_tokens(list: Seq<ChatMessageV>, n: nat) -> nat
    decreases n,
{
    if n == 0 || n > list.len() {
        0
    } else {
        prompt_tokens(list, (n - 1) as nat) + estimate(
            match list[n - 1].content {
                Some(s) => s,
                None => Seq::empty(),
            },
        )
    }
}

/// What the first `n` sections are thought to take.
pub open spec fn section_tokens(list: Seq<SectionV>, n: nat) -> nat
    decreases n,
{
    if n == 0 || n > list.len() {
        0
    } else {
        section_tokens(list, (n - 1) as nat) + list[n - 1].tokens.0 as nat
    }
}

/// What a prompt is thought to take.
pub open spec fn all_tokens(base: Seq<ChatMessageV>, list: Seq<SectionV>) -> nat {
    section_tokens(list, list.len()) + prompt_tokens(base, base.len())
}

fn count_prompt(list: &Vec<ChatMessage>) -> (r: u128)
    ensures
        r == prompt_tokens(op::messages(list@), list@.len()),
{
    let ghost all = op::messages(list@);
    let mut total: u128 = 0;
    let mut i: usize = 0;
    while i < list.len()
        invariant
            i <= list@.len(),
            all == op::messages(list@),
            total == prompt_tokens(all, i as nat),
            total <= i * 0xffff_ffff_ffff_ffff,
        decreases list@.len() - i,
    {
        let n = match &list[i].content {
            Some(s) => estimate_tokens(s.as_str()),
            None => {
                proof {
                    reveal_strlit("");
                    assert(""@ =~= Seq::empty());
                }
                estimate_tokens("")
            },
        };
        assert(all[i as int] == list@[i as int]@);
        total = total + n as u128;
        i += 1;
    }
    total
}

fn count_sections(list: &Vec<Section>) -> (r: u128)
    ensures
        r == section_tokens(sections(list@), list@.len()),
{
    let ghost all = sections(list@);
    let mut total: u128 = 0;
    let mut i: usize = 0;
    while i < list.len()
        invariant
            i <= list@.len(),
            all == sections(list@),
            total == section_tokens(all, i as nat),
            total <= i * 0xffff_ffff_ffff_ffff,
        decreases list@.len() - i,
    {
        assert(all[i as int] == list@[i as int]@);
        total = total + list[i].tokens.0 as u128;
        i += 1;
    }
    total
}

/// The budget that is taken where none is given.
pub open spec fn default_budget() -> TokenBudgetV {
    TokenBudgetV {
        total: 8000,
        reserve_ratio: "0.15"@,
        allocation: BudgetAllocationV::FixedRatios {
            system: "0.7"@,
            context: "0.2"@,
            observation: "0.1"@,
        },
    }
}

/// The strategy that is taken where none is given.
pub open spec fn default_strategy() -> ContextStrategyV {
    ContextStrategyV {
        temporal_window: 30,
        semantic_limit: 10,
        semantic_threshold: "0.65"@,
        enabled_backends: Seq::empty(),
    }
}

impl Default for TokenBudget {
    fn default() -> (r: Self)
        ensures
            r@ == default_budget(),
    {
        TokenBudget {
            total: 8000,
            reserve_ratio: "0.15".to_owned(),
            allocation: BudgetAllocation::FixedRatios {
                system: "0.7".to_owned(),
                context: "0.2".to_owned(),
                observation: "0.1".to_owned(),
            },
        }
    }
}

impl Default for ContextStrategy {
    fn default() -> (r: Self)
        ensures
            r@ == default_strategy(),
    {
        let r = ContextStrategy {
            temporal_window: 30,
            semantic_limit: 10,
            semantic_threshold: "0.65".to_owned(),
            enabled_backends: Vec::new(),
        };
        assert(op::texts(r.enabled_backends@) =~= Seq::empty());
        r
    }
}

/// An optional decimal, null where it is absent.
pub open spec fn nullable_decimal(s: Option<Seq<char>>) -> JsonV {
    match s {
        Some(t) => JsonV::Float(t),
        None => JsonV::Null,
    }
}

/// The JSON form of a call, its fields as declared.
pub open spec fn call_record(c: ToolCallV) -> JsonV {
    JsonV::Object(
        seq![
            ("id"@, JsonV::Str(c.id)),
            ("name"@, JsonV::Str(c.name)),
            ("arguments"@, c.arguments),
        ],
    )
}

/// The JSON form of some calls.
pub open spec fn call_records(list: Seq<ToolCallV>) -> JsonV {
    JsonV::Array(Seq::new(list.len(), |i: int| call_record(list[i])))
}

/// The JSON form of a message, its fields as declared.
pub open spec fn message_record(m: ChatMessageV) -> JsonV {
    let base = Seq::<(Seq<char>, JsonV)>::empty().push(
        ("id"@, JsonV::Str(codec::uuid_text(m.id))),
    ).push(("role"@, JsonV::Str(m.role))).push(("content"@, codec::nullable(m.content)));
    let with_id = match m.tool_call_id {
        Some(id) => base.push(("tool_call_id"@, JsonV::Str(id))),
        None => base,
    };
    JsonV::Object(
        match m.tool_calls {
            Some(list) => with_id.push(("tool_calls"@, call_records(list))),
            None => with_id,
        },
    )
}

/// The JSON form of some messages.
pub open spec fn message_records(list: Seq<ChatMessageV>) -> JsonV {
    JsonV::Array(Seq::new(list.len(), |i: int| message_record(list[i])))
}

impl RetrievalMode {
    /// What a mode is called.
    pub open spec fn called(self) -> Seq<char> {
        match self {
            RetrievalMode::Temporal => "Temporal"@,
            RetrievalMode::Semantic => "Semantic"@,
        }
    }

    /// What a mode is called.
    pub fn name(self) -> (r: &'static str)
        ensures
            r@ == self.called(),
    {
        match self {
            RetrievalMode::Temporal => "Temporal",
            RetrievalMode::Semantic => "Semantic",
        }
    }
}

impl RetrievalTiming {
    /// What a timing is called.
    pub open spec fn called(self) -> Seq<char> {
        match self {
            RetrievalTiming::Passive => "Passive"@,
            RetrievalTiming::Active => "Active"@,
        }
    }

    /// What a timing is called.
    pub fn name(self) -> (r: &'static str)
        ensures
            r@ == self.called(),
    {
        match self {
            RetrievalTiming::Passive => "Passive",
            RetrievalTiming::Active => "Active",
        }
    }
}

impl SectionRole {
    /// What a role is called.
    pub open spec fn called(self) -> Seq<char> {
        match self {
            SectionRole::System => "System"@,
            SectionRole::Developer => "Developer"@,
            SectionRole::User => "User"@,
            SectionRole::Assistant => "Assistant"@,
            SectionRole::Tool => "Tool"@,
            SectionRole::Context => "Context"@,
        }
    }

    /// What a role is called.
    pub fn name(self) -> (r: &'static str)
        ensures
            r@ == self.called(),
    {
        match self {
            SectionRole::System => "System",
            SectionRole::Developer => "Developer",
            SectionRole::User => "User",
            SectionRole::Assistant => "Assistant",
            SectionRole::Tool => "Tool",
            SectionRole::Context => "Context",
        }
    }
}

impl CompositionMode {
    /// What a mode is called.
    pub open spec fn called(self) -> Seq<char> {
        match self {
            CompositionMode::Hierarchical => "Hierarchical"@,
            CompositionMode::Constraint => "Constraint"@,
            CompositionMode::Additive => "Additive"@,
            CompositionMode::Contextual => "Contextual"@,
        }
    }

    /// What a mode is called.
    pub fn name(self) -> (r: &'static str)
        ensures
            r@ == self.called(),
    {
        match self {
            CompositionMode::Hierarchical => "Hierarchical",
            CompositionMode::Constraint => "Constraint",
            CompositionMode::Additive => "Additive",
            CompositionMode::Contextual => "Contextual",
        }
    }
}

impl Priority {
    /// What a priority is called.
    pub open spec fn called(self) -> Seq<char> {
        match self {
            Priority::Low => "Low"@,
            Priority::Medium => "Medium"@,
            Priority::High => "High"@,
            Priority::Critical => "Critical"@,
        }
    }

    /// What a priority is called.
    pub fn name(self) -> (r: &'static str)
        ensures
            r@ == self.called(),
    {
        match self {
            Priority::Low => "Low",
            Priority::Medium => "Medium",
            Priority::High => "High",
            Priority::Critical => "Critical",
        }
    }
}

/// The JSON form of an origin.
pub open spec fn origin_json(o: SectionOriginV) -> JsonV {
    match o {
        SectionOriginV::Static { name } => JsonV::Object(
            seq![("Static"@, JsonV::Object(seq![("name"@, JsonV::Str(name))]))],
        ),
        SectionOriginV::Retrieval { backend, mode, query, key, score } => JsonV::Object(
            seq![
                (
                    "Retrieval"@,
                    JsonV::Object(
                        seq![
                            ("backend"@, JsonV::Str(backend)),
                            ("mode"@, JsonV::Str(mode.called())),
                            ("query"@, codec::nullable(query)),
                            ("key"@, codec::nullable(key)),
                            ("score"@, nullable_decimal(score)),
                        ],
                    ),
                ),
            ],
        ),
        SectionOriginV::State { key } => JsonV::Object(
            seq![("State"@, JsonV::Object(seq![("key"@, JsonV::Str(key))]))],
        ),
        SectionOriginV::User => JsonV::Str("User"@),
        SectionOriginV::ToolResult => JsonV::Str("ToolResult"@),
    }
}

/// The JSON form of a source.
pub open spec fn source_json(s: SectionSourceV) -> JsonV {
    JsonV::Object(
        seq![
            ("origin"@, origin_json(s.origin)),
            ("timing"@, JsonV::Str(s.timing.called())),
            ("metadata"@, s.metadata),
        ],
    )
}

/// The JSON form of a section.
pub open spec fn section_json(s: SectionV) -> JsonV {
    JsonV::Object(
        Seq::<(Seq<char>, JsonV)>::empty().push(("id"@, JsonV::Str(s.id))).push(
            ("label"@, JsonV::Str(s.label)),
        ).push(("source"@, source_json(s.source))).push((
            "role"@,
            JsonV::Str(s.role.called()),
        )).push(
            ("content"@, JsonV::Str(s.content)),
        ).push(("tokens"@, JsonV::Int(s.tokens.0 as int))).push(
            ("priority"@, JsonV::Str(s.priority.called())),
        ).push(("composition"@, JsonV::Str(s.composition.called()))).push(
            ("relevance"@, nullable_decimal(s.relevance)),
        ).push(("recency"@, codec::nullable(s.recency))).push(("hash"@, JsonV::Str(s.hash))).push(
            ("metadata"@, s.metadata),
        ),
    )
}

/// The JSON form of some sections.
pub open spec fn sections_json(list: Seq<SectionV>) -> JsonV {
    JsonV::Array(Seq::new(list.len(), |i: int| section_json(list[i])))
}

/// The JSON form of an allocation.
pub open spec fn allocation_json(a: BudgetAllocationV) -> JsonV {
    match a {
        BudgetAllocationV::FixedRatios { system, context, observation } => JsonV::Object(
            seq![
                (
                    "FixedRatios"@,
                    JsonV::Object(
                        seq![
                            ("system"@, JsonV::Float(system)),
                            ("context"@, JsonV::Float(context)),
                            ("observation"@, JsonV::Float(observation)),
                        ],
                    ),
                ),
            ],
        ),
        BudgetAllocationV::RelevanceWeighted => JsonV::Str("RelevanceWeighted"@),
        BudgetAllocationV::InformationWeighted => JsonV::Str("InformationWeighted"@),
    }
}

/// The JSON form of a budget.
pub open spec fn budget_json(b: TokenBudgetV) -> JsonV {
    JsonV::Object(
        seq![
            ("total"@, JsonV::Int(b.total as int)),
            ("reserve_ratio"@, JsonV::Float(b.reserve_ratio)),
            ("allocation"@, allocation_json(b.allocation)),
        ],
    )
}

/// The JSON form of a strategy.
pub open spec fn strategy_json(s: ContextStrategyV) -> JsonV {
    JsonV::Object(
        seq![
            ("temporal_window"@, JsonV::Int(s.temporal_window as int)),
            ("semantic_limit"@, JsonV::Int(s.semantic_limit as int)),
            ("semantic_threshold"@, JsonV::Float(s.semantic_threshold)),
            ("enabled_backends"@, ir_hash::texts_json(s.enabled_backends)),
        ],
    )
}

/// The digest by which a prompt in the making is known.
pub open spec fn prompt_digest(
    base: Seq<ChatMessageV>,
    list: Seq<SectionV>,
    budget: TokenBudgetV,
    strategy: ContextStrategyV,
) -> Seq<char> {
    digest::tagged_digest(
        json::json_text(
            JsonV::Object(
                seq![
                    ("base_messages"@, message_records(base)),
                    ("sections"@, sections_json(list)),
                    ("budget"@, budget_json(budget)),
                    ("strategy"@, strategy_json(strategy)),
                ],
            ),
        ),
    )
}

fn encode_nullable(s: &Option<String>) -> (r: Json)
    ensures
        r@ == codec::nullable(op::opt_text(*s)),
{
    match s {
        Some(t) => Json::Str(t.clone()),
        None => Json::Null,
    }
}

fn encode_decimal(s: &Option<String>) -> (r: Json)
    ensures
        r@ == nullable_decimal(op::opt_text(*s)),
{
    match s {
        Some(t) => Json::Float(t.clone()),
        None => Json::Null,
    }
}

fn write_calls(list: &Vec<ToolCall>) -> (r: Json)
    ensures
        r@ == call_records(op::calls(list@)),
{
    let mut out: Vec<Json> = Vec::new();
    let mut i: usize = 0;
    while i < list.len()
        invariant
            i <= list@.len(),
            out@.len() == i,
            forall|j: int| 0 <= j < i ==> (#[trigger] out@[j])@ == call_record(list@[j]@),
        decreases list@.len() - i,
    {
        let c = &list[i];
        out.push(
            record3(
                "id",
                Json::Str(c.id.clone()),
                "name",
                Json::Str(c.name.clone()),
                "arguments",
                c.arguments.clone(),
            ),
        );
        i += 1;
    }
    assert(json::values(out@) =~= call_records(op::calls(list@))->Array_0);
    Json::Array(out)
}

fn write_message(m: &ChatMessage) -> (r: Json)
    ensures
        r@ == message_record(m@),
{
    let mut list: Vec<(String, Json)> = Vec::new();
    assert(json::fields(list@) =~= Seq::empty());
    add_field(&mut list, "id", Json::Str(codec::render_uuid(m.id)));
    add_field(&mut list, "role", Json::Str(m.role.clone()));
    add_field(&mut list, "content", encode_nullable(&m.content));
    match &m.tool_call_id {
        Some(id) => {
            add_field(&mut list, "tool_call_id", Json::Str(id.clone()));
        },
        None => {},
    }
    match &m.tool_calls {
        Some(calls) => {
            add_field(&mut list, "tool_calls", write_calls(calls));
        },
        None => {},
    }
    Json::Object(list)
}

fn write_messages(list: &Vec<ChatMessage>) -> (r: Json)
    ensures
        r@ == message_records(op::messages(list@)),
{
    let mut out: Vec<Json> = Vec::new();
    let mut i: usize = 0;
    while i < list.len()
        invariant
            i <= list@.len(),
            out@.len() == i,
            forall|j: int| 0 <= j < i ==> (#[trigger] out@[j])@ == message_record(list@[j]@),
        decreases list@.len() - i,
    {
        out.push(write_message(&list[i]));
        i += 1;
    }
    assert(json::values(out@) =~= message_records(op::messages(list@))->Array_0);
    Json::Array(out)
}

fn encode_origin(o: &SectionOrigin) -> (r: Json)
    ensures
        r@ == origin_json(o@),
{
    match o {
        SectionOrigin::Static { name } => record1(
            "Static",
            record1("name", Json::Str(name.clone())),
        ),
        SectionOrigin::Retrieval { backend, mode, query, key, score } => record1(
            "Retrieval",
            record5(
                "backend",
                Json::Str(backend.clone()),
                "mode",
                Json::Str((*mode).name().to_owned()),
                "query",
                encode_nullable(query),
                "key",
                encode_nullable(key),
                "score",
                encode_decimal(score),
            ),
        ),
        SectionOrigin::State { key } => record1("State", record1("key", Json::Str(key.clone()))),
        SectionOrigin::User => Json::Str("User".to_owned()),
        SectionOrigin::ToolResult => Json::Str("ToolResult".to_owned()),
    }
}

fn encode_source(s: &SectionSource) -> (r: Json)
    ensures
        r@ == source_json(s@),
{
    record3(
        "origin",
        encode_origin(&s.origin),
        "timing",
        Json::Str(s.timing.name().to_owned()),
        "metadata",
        s.metadata.clone(),
    )
}

/// Encodes a section.
pub fn encode_section(s: &Section) -> (r: Json)
    ensures
        r@ == section_json(s@),
{
    let mut list: Vec<(String, Json)> = Vec::new();
    assert(json::fields(list@) =~= Seq::empty());
    add_field(&mut list, "id", Json::Str(s.id.0.clone()));
    add_field(&mut list, "label", Json::Str(s.label.clone()));
    add_field(&mut list, "source", encode_source(&s.source));
    add_field(&mut list, "role", Json::Str(s.role.name().to_owned()));
    add_field(&mut list, "content", Json::Str(s.content.clone()));
    add_field(&mut list, "tokens", Json::Int(s.tokens.0 as i128));
    add_field(&mut list, "priority", Json::Str(s.priority.name().to_owned()));
    add_field(&mut list, "composition", Json::Str(s.composition.name().to_owned()));
    add_field(&mut list, "relevance", encode_decimal(&s.relevance));
    add_field(&mut list, "recency", encode_nullable(&s.recency));
    add_field(&mut list, "hash", Json::Str(s.hash.0.clone()));
    add_field(&mut list, "metadata", s.metadata.clone());
    Json::Object(list)
}

fn encode_sections(list: &Vec<Section>) -> (r: Json)
    ensures
        r@ == sections_json(sections(list@)),
{
    let mut out: Vec<Json> = Vec::new();
    let mut i: usize = 0;
    while i < list.len()
        invariant
            i <= list@.len(),
            out@.len() == i,
            forall|j: int| 0 <= j < i ==> (#[trigger] out@[j])@ == section_json(list@[j]@),
        decreases list@.len() - i,
    {
        out.push(encode_section(&list[i]));
        i += 1;
    }
    assert(json::values(out@) =~= sections_json(sections(list@))->Array_0);
    Json::Array(out)
}

fn encode_allocation(a: &BudgetAllocation) -> (r: Json)
    ensures
        r@ == allocation_json(a@),
{
    match a {
        BudgetAllocation::FixedRatios { system, context, observation } => record1(
            "FixedRatios",
            record3(
                "system",
                Json::Float(system.clone()),
                "context",
                Json::Float(context.clone()),
                "observation",
                Json::Float(observation.clone()),
            ),
        ),
        BudgetAllocation::RelevanceWeighted => Json::Str("RelevanceWeighted".to_owned()),
        BudgetAllocation::InformationWeighted => Json::Str("InformationWeighted".to_owned()),
    }
}

fn encode_budget(b: &TokenBudget) -> (r: Json)
    ensures
        r@ == budget_json(b@),
{
    record3(
        "total",
        Json::Int(b.total as i128),
        "reserve_ratio",
        Json::Float(b.reserve_ratio.clone()),
        "allocation",
        encode_allocation(&b.allocation),
    )
}

fn encode_strategy(s: &ContextStrategy) -> (r: Json)
    ensures
        r@ == strategy_json(s@),
{
    record4(
        "temporal_window",
        Json::Int(s.temporal_window as i128),
        "semantic_limit",
        Json::Int(s.semantic_limit as i128),
        "semantic_threshold",
        Json::Float(s.semantic_threshold.clone()),
        "enabled_backends",
        encode_texts(&s.enabled_backends),
    )
}

/// The digest by which a prompt in the making is known.
pub fn prompt_hash_parts(
    base_messages: &Prompt,
    list: &Vec<Section>,
    budget: &TokenBudget,
    strategy: &ContextStrategy,
) -> (r: ContentHash)
    ensures
        r@ == prompt_digest(op::messages(base_messages@), sections(list@), budget@, strategy@),
{
    let v = record4(
        "base_messages",
        write_messages(base_messages),
        "sections",
        encode_sections(list),
        "budget",
        encode_budget(budget),
        "strategy",
        encode_strategy(strategy),
    );
    ContentHash(tagged_digest_of(v.to_text().as_str()))
}

/// What a trace says of a section.
pub open spec fn summary_of(s: SectionV, include_content: bool) -> SectionSummaryV {
    SectionSummaryV {
        section_id: s.id,
        label: s.label,
        source: s.source,
        role: s.role,
        priority: s.priority,
        composition: s.composition,
        tokens: s.tokens,
        hash: s.hash,
        content_preview: text::prefix(s.content, CONTENT_PREVIEW_CHARS as nat),
        content: if include_content {
            Some(s.content)
        } else {
            None
        },
    }
}

fn summarize(s: &Section, include_content: bool) -> (r: SectionSummary)
    ensures
        r@ == summary_of(s@, include_content),
{
    let content = if include_content {
        Some(s.content.clone())
    } else {
        None
    };
    SectionSummary {
        section_id: s.id.clone(),
        label: s.label.clone(),
        source: s.source.clone(),
        role: s.role,
        priority: s.priority,
        composition: s.composition,
        tokens: s.tokens,
        hash: s.hash.clone(),
        content_preview: preview(s.content.as_str(), CONTENT_PREVIEW_CHARS),
        content,
    }
}

/// A prompt in the making from messages and sections.
pub open spec fn prompt_of(
    base: Seq<ChatMessageV>,
    list: Seq<SectionV>,
    timestamp: i128,
) -> PromptIRV {
    let hash = prompt_digest(base, list, default_budget(), default_strategy());
    PromptIRV {
        id: hash,
        base_messages: base,
        sections: list,
        tools: Seq::empty(),
        observation: None,
        meta: PromptMetaV {
            total_tokens: TokenEstimate(all_tokens(base, list) as usize),
            budget: default_budget(),
            strategy: default_strategy(),
            timestamp,
            prompt_hash: hash,
        },
    }
}

impl PromptIR {
    /// A prompt in the making from messages and sections, known by a digest
    /// of what it is made of.
    pub fn new(base_messages: Prompt, list: Vec<Section>, timestamp: i128) -> (r: Result<
        Self,
        TooManyTokens,
    >)
        ensures
            match r {
                Ok(p) => all_tokens(op::messages(base_messages@), sections(list@)) <= usize::MAX
                    && p@ == prompt_of(op::messages(base_messages@), sections(list@), timestamp),
                Err(_) => all_tokens(op::messages(base_messages@), sections(list@)) > usize::MAX,
            },
    {
        let a = count_sections(&list);
        let b = count_prompt(&base_messages);
        if a > usize::MAX as u128 || b > usize::MAX as u128 || a + b > usize::MAX as u128 {
            return Err(TooManyTokens);
        }
        let total = (a + b) as usize;
        let budget = TokenBudget::default();
        let strategy = ContextStrategy::default();
        let prompt_hash = prompt_hash_parts(&base_messages, &list, &budget, &strategy);
        let r = PromptIR {
            id: PromptId(prompt_hash.0.clone()),
            base_messages,
            sections: list,
            tools: Vec::new(),
            observation: None,
            meta: PromptMeta {
                total_tokens: TokenEstimate(total),
                budget,
                strategy,
                timestamp,
                prompt_hash,
            },
        };
        assert(tool_defs(r.tools@) =~= Seq::empty());
        Ok(r)
    }

    /// What a trace says of a prompt, with its contents or without.
    pub fn trace(&self, include_content: bool) -> (r: PromptIRTrace)
        ensures
            r@ == (PromptIRTraceV {
                prompt_id: self@.id,
                prompt_hash: self@.meta.prompt_hash,
                total_tokens: self@.meta.total_tokens,
                budget: self@.meta.budget,
                strategy: self@.meta.strategy,
                sections: Seq::new(
                    self@.sections.len(),
                    |i: int| summary_of(self@.sections[i], include_content),
                ),
            }),
    {
        let mut out: Vec<SectionSummary> = Vec::new();
        let mut i: usize = 0;
        while i < self.sections.len()
            invariant
                i <= self.sections@.len(),
                out@.len() == i,
                forall|j: int|
                    0 <= j < i ==> (#[trigger] out@[j])@ == summary_of(
                        self.sections@[j]@,
                        include_content,
                    ),
            decreases self.sections@.len() - i,
        {
            out.push(summarize(&self.sections[i], include_content));
            i += 1;
        }
        assert(summaries(out@) =~= Seq::new(
            self@.sections.len(),
            |i: int| summary_of(self@.sections[i], include_content),
        ));
        PromptIRTrace {
            prompt_id: self.id.clone(),
            prompt_hash: self.meta.prompt_hash.clone(),
            total_tokens: self.meta.total_tokens,
            budget: self.meta.budget.clone(),
            strategy: self.meta.strategy.clone(),
            sections: out,
        }
    }
}

/// A section with the digest and the estimate of its content.
pub open spec fn section_of(
    id: Seq<char>,
    label: Seq<char>,
    source: SectionSourceV,
    role: SectionRole,
    content: Seq<char>,
    priority: Priority,
    composition: CompositionMode,
    relevance: Option<Seq<char>>,
    metadata: JsonV,
) -> SectionV {
    SectionV {
        id,
        label,
        source,
        role,
        content,
        tokens: TokenEstimate(estimate(content) as usize),
        priority,
        composition,
        relevance,
        recency: None,
        hash: digest::tagged_digest(content),
        metadata,
    }
}

/// Where recent history comes from.
pub open spec fn session_source() -> SectionSourceV {
    SectionSourceV {
        origin: SectionOriginV::Retrieval {
            backend: "session"@,
            mode: RetrievalMode::Temporal,
            query: None,
            key: Some("temporal:history"@),
            score: None,
        },
        timing: RetrievalTiming::Passive,
        metadata: JsonV::Null,
    }
}

/// How a source finds what it gives back.
pub open spec fn mode_of(kind: SourceKind) -> RetrievalMode {
    match kind {
        SourceKind::Temporal => RetrievalMode::Temporal,
        _ => RetrievalMode::Semantic,
    }
}

impl Section {
    /// A section; its digest and its estimate follow from its content.
    pub fn new(
        id: &str,
        label: &str,
        source: SectionSource,
        role: SectionRole,
        content: String,
        priority: Priority,
        composition: CompositionMode,
        relevance: Option<String>,
        metadata: Json,
    ) -> (r: Self)
        ensures
            r@ == section_of(
                id@,
                label@,
                source@,
                role,
                content@,
                priority,
                composition,
                op::opt_text(relevance),
                metadata@,
            ),
            r.tokens.0 == estimate(content@),
    {
        let hash = ContentHash(tagged_digest_of(content.as_str()));
        let tokens = TokenEstimate(estimate_tokens(content.as_str()));
        Section {
            id: SectionId(id.to_owned()),
            label: label.to_owned(),
            source,
            role,
            content,
            tokens,
            priority,
            composition,
            relevance,
            recency: None,
            hash,
            metadata,
        }
    }

    /// A section of recent history.
    pub fn passive_temporal(id: &str, label: &str, content: String) -> (r: Self)
        ensures
            r@ == section_of(
                id@,
                label@,
                session_source(),
                SectionRole::Context,
                content@,
                Priority::High,
                CompositionMode::Contextual,
                None,
                JsonV::Null,
            ),
            r.tokens.0 == estimate(content@),
    {
        let source = SectionSource {
            origin: SectionOrigin::Retrieval {
                backend: "session".to_owned(),
                mode: RetrievalMode::Temporal,
                query: None,
                key: Some("temporal:history".to_owned()),
                score: None,
            },
            timing: RetrievalTiming::Passive,
            metadata: Json::Null,
        };
        Section::new(
            id,
            label,
            source,
            SectionRole::Context,
            content,
            Priority::High,
            CompositionMode::Contextual,
            None,
            Json::Null,
        )
    }

    /// A section from what a source gave back.  The score is what the
    /// metadata holds under that name, as a decimal text.
    pub fn from_source_result(
        id: &str,
        result: SourceResult,
        timing: RetrievalTiming,
        query: Option<String>,
        score: Option<String>,
    ) -> (r: Self)
        ensures
            r@ == section_of(
                id@,
                result@.source,
                (SectionSourceV {
                    origin: SectionOriginV::Retrieval {
                        backend: result@.source,
                        mode: mode_of(result@.kind),
                        query: op::opt_text(query),
                        key: None,
                        score: op::opt_text(score),
                    },
                    timing,
                    metadata: result@.metadata,
                }),
                SectionRole::Context,
                result@.content,
                Priority::Medium,
                CompositionMode::Additive,
                op::opt_text(score),
                result@.metadata,
            ),
            r.tokens.0 == estimate(result@.content),
    {
        let mode = match result.kind {
            SourceKind::Temporal => RetrievalMode::Temporal,
            _ => RetrievalMode::Semantic,
        };
        let label = result.source.clone();
        let source = SectionSource {
            origin: SectionOrigin::Retrieval {
                backend: result.source,
                mode,
                query,
                key: None,
                score: copy_opt(&score),
            },
            timing,
            metadata: result.metadata.clone(),
        };
        Section::new(
            id,
            label.as_str(),
            source,
            SectionRole::Context,
            result.content,
            Priority::Medium,
            CompositionMode::Additive,
            score,
            result.metadata,
        )
    }
}

/// The sections of one mode among the first `n`, as they came.
pub open spec fn of_mode(list: Seq<SectionV>, mode: CompositionMode, n: nat) -> Seq<SectionV>
    decreases n,
{
    if n == 0 || n > list.len() {
        Seq::empty()
    } else if list[n - 1].composition == mode {
        of_mode(list, mode, (n - 1) as nat).push(list[n - 1])
    } else {
        of_mode(list, mode, (n - 1) as nat)
    }
}

/// The sections in the order in which they are put together: by mode, and
/// within a mode as they came.
pub open spec fn ordered(list: Seq<SectionV>) -> Seq<SectionV> {
    of_mode(list, CompositionMode::Hierarchical, list.len()) + of_mode(
        list,
        CompositionMode::Constraint,
        list.len(),
    ) + of_mode(list, CompositionMode::Additive, list.len()) + of_mode(
        list,
        CompositionMode::Contextual,
        list.len(),
    )
}

proof fn modes_part(list: Seq<SectionV>, n: nat)
    requires
        n <= list.len(),
    ensures
        of_mode(list, CompositionMode::Hierarchical, n).len() + of_mode(
            list,
            CompositionMode::Constraint,
            n,
        ).len() + of_mode(list, CompositionMode::Additive, n).len() + of_mode(
            list,
            CompositionMode::Contextual,
            n,
        ).len() == n,
    decreases n,
{
    if n > 0 {
        modes_part(list, (n - 1) as nat);
    }
}

/// Putting sections in order loses none and adds none.
pub proof fn ordering_keeps_every_section(list: Seq<SectionV>)
    ensures
        ordered(list).len() == list.len(),
        forall|i: int| 0 <= i < list.len() ==> ordered(list).contains(#[trigger] list[i]),
{
    modes_part(list, list.len());
    assert forall|i: int| 0 <= i < list.len() implies ordered(list).contains(
        #[trigger] list[i],
    ) by {
        let h = of_mode(list, CompositionMode::Hierarchical, list.len());
        let c = of_mode(list, CompositionMode::Constraint, list.len());
        let a = of_mode(list, CompositionMode::Additive, list.len());
        let x = of_mode(list, CompositionMode::Contextual, list.len());
        mode_holds(list, list.len(), i);
        let mine = of_mode(list, list[i].composition, list.len());
        let k = mine.index_of(list[i]);
        match list[i].composition {
            CompositionMode::Hierarchical => {
                assert(ordered(list)[k] == list[i]);
            },
            CompositionMode::Constraint => {
                assert(ordered(list)[h.len() + k] == list[i]);
            },
            CompositionMode::Additive => {
                assert(ordered(list)[h.len() + c.len() + k] == list[i]);
            },
            CompositionMode::Contextual => {
                assert(ordered(list)[h.len() + c.len() + a.len() + k] == list[i]);
            },
        }
    }
}

proof fn mode_holds(list: Seq<SectionV>, n: nat, i: int)
    requires
        0 <= i < n <= list.len(),
    ensures
        of_mode(list, list[i].composition, n).contains(list[i]),
    decreases n,
{
    let mine = of_mode(list, list[i].composition, n);
    if i == n - 1 {
        assert(mine[mine.len() - 1] == list[i]);
    } else {
        mode_holds(list, (n - 1) as nat, i);
        let less = of_mode(list, list[i].composition, (n - 1) as nat);
        let k = less.index_of(list[i]);
        assert(mine[k] == list[i]);
    }
}

/// Whether a section goes into the context block.
pub open spec fn is_context(role: SectionRole) -> bool {
    role == SectionRole::System || role == SectionRole::Developer || role == SectionRole::Context
}

/// The context block of the first `n` sections, piece by piece.
pub open spec fn blocks(list: Seq<SectionV>, n: nat) -> Seq<Seq<char>>
    decreases n,
{
    if n == 0 || n > list.len() {
        Seq::empty()
    } else if is_context(list[n - 1].role) {
        blocks(list, (n - 1) as nat).push(
            "## "@ + list[n - 1].label + "\n"@ + list[n - 1].content,
        )
    } else {
        blocks(list, (n - 1) as nat)
    }
}

/// What a section outside the context block says.
pub open spec fn direct(s: SectionV) -> Said {
    match s.role {
        SectionRole::User => op::user_said(s.content),
        SectionRole::Assistant => op::assistant_said(Some(s.content), Seq::empty()),
        _ => op::tool_said(s.id, s.content),
    }
}

/// What the sections outside the context block say.
pub open spec fn directs(list: Seq<SectionV>, n: nat) -> Seq<Said>
    decreases n,
{
    if n == 0 || n > list.len() {
        Seq::empty()
    } else if is_context(list[n - 1].role) {
        directs(list, (n - 1) as nat)
    } else {
        directs(list, (n - 1) as nat).push(direct(list[n - 1]))
    }
}

/// The first system message from `i` on, or the end.
pub open spec fn first_system(list: Seq<Said>, i: int) -> int
    decreases list.len() - i,
{
    if i < 0 || i >= list.len() {
        list.len() as int
    } else if list[i].role == "system"@ {
        i
    } else {
        first_system(list, i + 1)
    }
}

proof fn system_place_bounds(list: Seq<Said>, i: int)
    requires
        0 <= i,
    ensures
        0 <= first_system(list, i) <= list.len(),
    decreases list.len() - i,
{
    if i < list.len() && list[i].role != "system"@ {
        system_place_bounds(list, i + 1);
    }
}

/// A message with a block added to what it says.
pub open spec fn with_block(m: Said, block: Seq<char>) -> Said {
    Said {
        content: Some(
            match m.content {
                Some(c) => if c.len() == 0 {
                    block
                } else {
                    c + "\n\n"@ + block
                },
                None => block,
            },
        ),
        ..m
    }
}

/// Messages with a block in the first system message, or in a new one.
pub open spec fn injected(list: Seq<Said>, block: Seq<char>) -> Seq<Said> {
    let i = first_system(list, 0);
    if i < list.len() {
        list.update(i, with_block(list[i], block))
    } else {
        seq![op::system_said(block)] + list
    }
}

/// The context block of some sections.
pub open spec fn context_block(list: Seq<SectionV>) -> Seq<char> {
    "Hydrated context:\n\n"@ + text::joined(blocks(list, list.len()), "\n\n"@)
}

/// The base messages with the context block.
pub open spec fn grounded(ir: PromptIRV) -> Seq<Said> {
    let base = op::sayings(ir.base_messages);
    let list = ordered(ir.sections);
    if blocks(list, list.len()).len() == 0 {
        base
    } else {
        injected(base, context_block(list))
    }
}

/// What the messages of a prompt say.
pub open spec fn compiled(ir: PromptIRV) -> Seq<Said> {
    let list = ordered(ir.sections);
    let all = grounded(ir) + directs(list, list.len());
    match ir.observation {
        Some(o) => all.push(op::user_said(o.content)),
        None => all,
    }
}

/// How many messages stand before the base messages.
pub open spec fn shift(ir: PromptIRV) -> int {
    grounded(ir).len() - ir.base_messages.len()
}

/// Without sections and observation a prompt is its messages.
pub proof fn plain_prompts_are_kept(ir: PromptIRV)
    requires
        ir.sections.len() == 0,
        ir.observation is None,
    ensures
        compiled(ir) == op::sayings(ir.base_messages),
{
    let list = ordered(ir.sections);
    assert(list =~= Seq::empty());
    assert(compiled(ir) =~= op::sayings(ir.base_messages));
}

fn add_mode(list: &Vec<Section>, mode: CompositionMode, out: &mut Vec<Section>)
    ensures
        sections(final(out)@) == sections(old(out)@) + of_mode(sections(list@), mode, list@.len()),
{
    let ghost all = sections(list@);
    let ghost before = sections(out@);
    let mut i: usize = 0;
    assert(before + Seq::<SectionV>::empty() =~= before);
    while i < list.len()
        invariant
            i <= list@.len(),
            all == sections(list@),
            sections(out@) == before + of_mode(all, mode, i as nat),
        decreases list@.len() - i,
    {
        assert(all[i as int] == list@[i as int]@);
        if list[i].composition == mode {
            let ghost now = out@;
            out.push(list[i].clone());
            assert(sections(out@) =~= sections(now).push(all[i as int]));
            assert(sections(out@) =~= before + of_mode(all, mode, i as nat).push(all[i as int]));
        }
        i += 1;
    }
}

fn ordered_sections(list: &Vec<Section>) -> (r: Vec<Section>)
    ensures
        sections(r@) == ordered(sections(list@)),
{
    let mut out: Vec<Section> = Vec::new();
    assert(sections(out@) =~= Seq::empty());
    add_mode(list, CompositionMode::Hierarchical, &mut out);
    add_mode(list, CompositionMode::Constraint, &mut out);
    add_mode(list, CompositionMode::Additive, &mut out);
    add_mode(list, CompositionMode::Contextual, &mut out);
    assert(sections(out@) =~= ordered(sections(list@)));
    out
}

fn render_section(s: &Section) -> (r: String)
    ensures
        r@ == "## "@ + s@.label + "\n"@ + s@.content,
{
    let mut out = "## ".to_owned();
    out.append(s.label.as_str());
    out.append("\n");
    out.append(s.content.as_str());
    out
}

fn context_sections(list: &Vec<Section>) -> (r: Vec<String>)
    ensures
        op::texts(r@) == blocks(sections(list@), list@.len()),
{
    let ghost all = sections(list@);
    let mut out: Vec<String> = Vec::new();
    let mut i: usize = 0;
    assert(op::texts(out@) =~= Seq::empty());
    while i < list.len()
        invariant
            i <= list@.len(),
            all == sections(list@),
            op::texts(out@) == blocks(all, i as nat),
        decreases list@.len() - i,
    {
        assert(all[i as int] == list@[i as int]@);
        match list[i].role {
            SectionRole::System | SectionRole::Developer | SectionRole::Context => {
                push_string(&mut out, render_section(&list[i]));
            },
            _ => {},
        }
        i += 1;
    }
    out
}

fn push_saying(history: &mut Prompt, m: ChatMessage)
    ensures
        op::sayings(op::messages(final(history)@)) == op::sayings(
            op::messages(old(history)@),
        ).push(m@.said()),
        op::messages(final(history)@) == op::messages(old(history)@).push(m@),
{
    let ghost before = op::messages(history@);
    push_message(history, m);
    assert(op::sayings(op::messages(history@)) =~= op::sayings(before).push(m@.said()));
}

fn direct_message(s: &Section) -> (r: ChatMessage)
    requires
        !is_context(s.role),
    ensures
        r@.said() == direct(s@),
{
    match s.role {
        SectionRole::User => ChatMessage::user(s.content.as_str()),
        SectionRole::Assistant => {
            let none: Vec<ToolCall> = Vec::new();
            assert(op::calls(none@) =~= Seq::empty());
            ChatMessage::assistant(Some(s.content.clone()), none)
        },
        _ => ChatMessage::tool(s.id.0.as_str(), s.content.as_str()),
    }
}

/// Whether messages stand in a longer list from a place on, by their
/// identities.
pub open spec fn same_ids(now: Seq<ChatMessageV>, before: Seq<ChatMessageV>, from: int) -> bool {
    &&& from + before.len() <= now.len()
    &&& forall|i: int| 0 <= i < before.len() ==> (#[trigger] before[i]).id == now[from + i].id
}

fn system_place(prompt: &Prompt) -> (r: usize)
    ensures
        r == first_system(op::sayings(op::messages(prompt@)), 0),
        r <= prompt@.len(),
{
    let ghost all = op::sayings(op::messages(prompt@));
    let mut i: usize = 0;
    while i < prompt.len()
        invariant
            i <= prompt@.len(),
            all == op::sayings(op::messages(prompt@)),
            first_system(all, 0) == first_system(all, i as int),
        decreases prompt@.len() - i,
    {
        assert(all[i as int].role == prompt@[i as int].role@);
        if same_text(prompt[i].role.as_str(), "system") {
            return i;
        }
        i += 1;
    }
    i
}

fn add_block(m: &ChatMessage, block: &str) -> (r: ChatMessage)
    ensures
        r@.said() == with_block(m@.said(), block@),
        r@.id == m@.id,
{
    let content = match &m.content {
        Some(c) => if c.as_str().is_empty() {
            block.to_owned()
        } else {
            let mut out = c.clone();
            out.append("\n\n");
            out.append(block);
            out
        },
        None => block.to_owned(),
    };
    let mut out = m.clone();
    out.content = Some(content);
    out
}

fn inject_context_sections(base: &Prompt, block: &str) -> (r: Prompt)
    ensures
        op::sayings(op::messages(r@)) == injected(op::sayings(op::messages(base@)), block@),
        same_ids(op::messages(r@), op::messages(base@), r@.len() - base@.len()),
{
    let ghost all = op::sayings(op::messages(base@));
    let at = system_place(base);
    let mut out = copy_messages(base, base.len());
    assert(op::messages(base@).take(base@.len() as int) =~= op::messages(base@));
    assert(op::messages(out@).len() == out@.len());
    assert forall|i: int| 0 <= i < base@.len() implies (#[trigger] out@[i])@ == base@[i]@ by {
        assert(op::messages(out@)[i] == op::messages(base@)[i]);
    }
    if at < base.len() {
        let m = add_block(&base[at], block);
        out.set(at, m);
        assert(op::sayings(op::messages(out@)) =~= injected(all, block@));
    } else {
        let m = ChatMessage::system(block);
        out.insert(0, m);
        assert(op::sayings(op::messages(out@)) =~= injected(all, block@));
    }
    out
}

/// Puts a prompt together: the sections in order, the context into the system
/// message, the others behind the messages, and what was seen last.
pub fn compile_prompt_ir(ir: &PromptIR) -> (r: Prompt)
    ensures
        op::sayings(op::messages(r@)) == compiled(ir@),
        same_ids(op::messages(r@), ir@.base_messages, shift(ir@)),
{
    let list = ordered_sections(&ir.sections);
    let ghost all = sections(list@);
    assert(all.len() == list@.len());
    let context = context_sections(&list);
    let ghost pieces = op::texts(context@);
    assert(pieces.len() == context@.len());
    let mut prompt = if context.len() == 0 {
        let out = copy_messages(&ir.base_messages, ir.base_messages.len());
        assert(op::messages(ir.base_messages@).take(ir.base_messages@.len() as int) =~= op::messages(
            ir.base_messages@,
        ));
        out
    } else {
        let mut block = "Hydrated context:\n\n".to_owned();
        assert(pieces.take(pieces.len() as int) =~= pieces);
        block.append(join_texts(&context, context.len(), "\n\n").as_str());
        inject_context_sections(&ir.base_messages, block.as_str())
    };
    let ghost start = op::messages(prompt@);
    assert(op::sayings(start) == grounded(ir@));
    assert(op::sayings(start).len() == start.len());
    assert(op::sayings(ir@.base_messages).len() == ir@.base_messages.len());
    proof {
        system_place_bounds(op::sayings(ir@.base_messages), 0);
    }
    assert(same_ids(start, ir@.base_messages, shift(ir@)));
    let mut i: usize = 0;
    assert(op::sayings(op::messages(prompt@)) =~= op::sayings(start) + directs(all, 0));
    while i < list.len()
        invariant
            i <= list@.len(),
            all == sections(list@),
            op::sayings(op::messages(prompt@)) == op::sayings(start) + directs(all, i as nat),
            same_ids(op::messages(prompt@), ir@.base_messages, shift(ir@)),
            shift(ir@) >= 0,
        decreases list@.len() - i,
    {
        assert(all[i as int] == list@[i as int]@);
        match list[i].role {
            SectionRole::System | SectionRole::Developer | SectionRole::Context => {},
            _ => {
                push_saying(&mut prompt, direct_message(&list[i]));
                assert(op::sayings(op::messages(prompt@)) =~= op::sayings(start) + directs(
                    all,
                    i as nat,
                ).push(direct(all[i as int])));
            },
        }
        i += 1;
    }
    match &ir.observation {
        Some(o) => {
            push_saying(&mut prompt, ChatMessage::user(o.content.as_str()));
        },
        None => {},
    }
    prompt
}

} // verus!
