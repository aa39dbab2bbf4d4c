//! How prompts are put together from messages and sections.
use crate::codec;
use crate::digest;
use crate::hydration;
use crate::ir::SourceKind;
use crate::json::JsonV;
use crate::naming;
use crate::naming::mark;
use crate::op;
use crate::op::{ChatMessageV, Said};
use crate::prompt_ir;
use crate::prompt_ir::{
    CompositionMode, PromptIRV, Priority, RetrievalMode, RetrievalTiming, SectionRole,
    SectionSourceV, SectionV,
};
use crate::text;
use vstd::prelude::*;

verus! {

/// The place of a mode in a prompt.
pub open spec fn place_of(mode: CompositionMode) -> int {
    match mode {
        CompositionMode::Hierarchical => 0,
        CompositionMode::Constraint => 1,
        CompositionMode::Additive => 2,
        CompositionMode::Contextual => 3,
    }
}

proof fn of_one_mode(list: Seq<SectionV>, mode: CompositionMode, n: nat)
    requires
        n <= list.len(),
    ensures
        forall|i: int|
            0 <= i < prompt_ir::of_mode(list, mode, n).len() ==> (#[trigger] prompt_ir::of_mode(
                list,
                mode,
                n,
            )[i]).composition == mode,
    decreases n,
{
    if n > 0 {
        of_one_mode(list, mode, (n - 1) as nat);
    }
}

proof fn of_mode_adds(a: Seq<SectionV>, b: Seq<SectionV>, mode: CompositionMode)
    ensures
        prompt_ir::of_mode(a + b, mode, (a + b).len()) == prompt_ir::of_mode(a, mode, a.len())
            + prompt_ir::of_mode(b, mode, b.len()),
    decreases b.len(),
{
    let x = prompt_ir::of_mode(a, mode, a.len());
    if b.len() == 0 {
        assert(a + b =~= a);
        assert(x + prompt_ir::of_mode(b, mode, 0) =~= x);
    } else {
        let c = b.drop_last();
        of_mode_adds(a, c, mode);
        of_mode_front(a + b, a + c, mode, (a + c).len());
        of_mode_front(b, c, mode, c.len());
        assert((a + b)[(a + b).len() - 1] == b.last());
        let y = prompt_ir::of_mode(c, mode, c.len());
        if b.last().composition == mode {
            assert((x + y).push(b.last()) =~= x + y.push(b.last()));
        }
    }
}

proof fn of_mode_front(a: Seq<SectionV>, b: Seq<SectionV>, mode: CompositionMode, n: nat)
    requires
        n <= a.len(),
        n <= b.len(),
        forall|i: int| 0 <= i < n ==> #[trigger] a[i] == b[i],
    ensures
        prompt_ir::of_mode(a, mode, n) == prompt_ir::of_mode(b, mode, n),
    decreases n,
{
    if n > 0 {
        of_mode_front(a, b, mode, (n - 1) as nat);
        assert(a[n - 1] == b[n - 1]);
    }
}

proof fn all_of_one_mode(list: Seq<SectionV>, own: CompositionMode, mode: CompositionMode, n: nat)
    requires
        n <= list.len(),
        forall|i: int| 0 <= i < list.len() ==> (#[trigger] list[i]).composition == own,
    ensures
        own == mode ==> prompt_ir::of_mode(list, mode, n) =~= list.take(n as int),
        own != mode ==> prompt_ir::of_mode(list, mode, n).len() == 0,
    decreases n,
{
    if n > 0 {
        all_of_one_mode(list, own, mode, (n - 1) as nat);
        assert(list[n - 1].composition == own);
        assert(list.take(n as int) =~= list.take(n - 1).push(list[n - 1]));
    }
}

/// Sections are put together by mode, what is above first and what is context
/// last; within a mode they stay as they came.
pub proof fn sections_are_ordered_by_mode(list: Seq<SectionV>, mode: CompositionMode)
    ensures
        ({
            let r = prompt_ir::ordered(list);
            &&& forall|i: int, j: int|
                0 <= i < j < r.len() ==> place_of((#[trigger] r[i]).composition) <= place_of(
                    (#[trigger] r[j]).composition,
                )
            &&& prompt_ir::of_mode(r, mode, r.len()) == prompt_ir::of_mode(list, mode, list.len())
        }),
{
    let n = list.len();
    let a = prompt_ir::of_mode(list, CompositionMode::Hierarchical, n);
    let b = prompt_ir::of_mode(list, CompositionMode::Constraint, n);
    let c = prompt_ir::of_mode(list, CompositionMode::Additive, n);
    let d = prompt_ir::of_mode(list, CompositionMode::Contextual, n);
    of_one_mode(list, CompositionMode::Hierarchical, n);
    of_one_mode(list, CompositionMode::Constraint, n);
    of_one_mode(list, CompositionMode::Additive, n);
    of_one_mode(list, CompositionMode::Contextual, n);
    let r = prompt_ir::ordered(list);
    assert forall|i: int| 0 <= i < r.len() implies place_of((#[trigger] r[i]).composition) == if i
        < a.len() {
        0int
    } else if i < a.len() + b.len() {
        1
    } else if i < a.len() + b.len() + c.len() {
        2
    } else {
        3
    } by {
        if i < a.len() {
            assert(r[i] == a[i]);
        } else if i < a.len() + b.len() {
            assert(r[i] == b[i - a.len()]);
        } else if i < a.len() + b.len() + c.len() {
            assert(r[i] == c[i - a.len() - b.len()]);
        } else {
            assert(r[i] == d[i - a.len() - b.len() - c.len()]);
        }
    }
    all_of_one_mode(a, CompositionMode::Hierarchical, mode, a.len());
    all_of_one_mode(b, CompositionMode::Constraint, mode, b.len());
    all_of_one_mode(c, CompositionMode::Additive, mode, c.len());
    all_of_one_mode(d, CompositionMode::Contextual, mode, d.len());
    of_mode_adds(a, b, mode);
    of_mode_adds(a + b, c, mode);
    of_mode_adds(a + b + c, d, mode);
    assert(a.take(a.len() as int) =~= a && b.take(b.len() as int) =~= b);
    assert(c.take(c.len() as int) =~= c && d.take(d.len() as int) =~= d);
    assert(prompt_ir::of_mode(r, mode, r.len()) =~= prompt_ir::of_mode(list, mode, n));
}

/// What a system, a developer or the context says stands in the context block,
/// under its label; what a user, an assistant or a tool says is a message of
/// that role.
pub proof fn sections_speak_by_their_role(list: Seq<SectionV>, s: SectionV)
    ensures
        ({
            let more = list.push(s);
            let n = list.len();
            let context = s.role == SectionRole::System || s.role == SectionRole::Developer || s.role
                == SectionRole::Context;
            &&& context ==> prompt_ir::blocks(more, n + 1) == prompt_ir::blocks(list, n).push(
                "## "@ + s.label + "\n"@ + s.content,
            )
            &&& context ==> prompt_ir::directs(more, n + 1) == prompt_ir::directs(list, n)
            &&& !context ==> prompt_ir::blocks(more, n + 1) == prompt_ir::blocks(list, n)
            &&& s.role == SectionRole::User ==> prompt_ir::directs(more, n + 1)
                == prompt_ir::directs(list, n).push(op::user_said(s.content))
            &&& s.role == SectionRole::Assistant ==> prompt_ir::directs(more, n + 1)
                == prompt_ir::directs(list, n).push(
                op::assistant_said(Some(s.content), Seq::empty()),
            )
            &&& s.role == SectionRole::Tool ==> prompt_ir::directs(more, n + 1)
                == prompt_ir::directs(list, n).push(op::tool_said(s.id, s.content))
        }),
{
    let more = list.push(s);
    same_front(more, list, list.len());
    assert(more[list.len() as int] == s);
}

proof fn same_front(a: Seq<SectionV>, b: Seq<SectionV>, n: nat)
    requires
        n <= a.len(),
        n <= b.len(),
        forall|i: int| 0 <= i < n ==> #[trigger] a[i] == b[i],
    ensures
        prompt_ir::blocks(a, n) == prompt_ir::blocks(b, n),
        prompt_ir::directs(a, n) == prompt_ir::directs(b, n),
    decreases n,
{
    if n > 0 {
        same_front(a, b, (n - 1) as nat);
        assert(a[n - 1] == b[n - 1]);
    }
}

/// The context block joins the first system message, behind what it says; where
/// there is none, a new one stands in front.  Every other message stays.
pub proof fn context_joins_the_system(list: Seq<Said>, block: Seq<char>, i: int)
    requires
        0 <= i < list.len(),
    ensures
        ({
            let r = prompt_ir::injected(list, block);
            let first = list[i].role == "system"@ && forall|j: int|
                0 <= j < i ==> (#[trigger] list[j]).role != "system"@;
            &&& first ==> {
                &&& r.len() == list.len()
                &&& forall|j: int| 0 <= j < list.len() && j != i ==> #[trigger] r[j] == list[j]
                &&& r[i].role == "system"@
                &&& list[i].content matches Some(s) ==> (s.len() > 0 ==> r[i].content == Some(
                    s + "\n\n"@ + block,
                ))
                &&& list[i].content is None ==> r[i].content == Some(block)
                &&& r[i].tool_calls == list[i].tool_calls
            }
            &&& (forall|j: int| 0 <= j < list.len() ==> (#[trigger] list[j]).role != "system"@) ==> r
                =~= seq![op::system_said(block)] + list
        }),
{
    first_system_found(list, 0);
    let k = prompt_ir::first_system(list, 0);
    if k < list.len() {
        assert(list[k].role == "system"@);
        if k < i && list[i].role == "system"@ && (forall|j: int|
            0 <= j < i ==> (#[trigger] list[j]).role != "system"@) {
            assert(list[k].role != "system"@);
        }
    }
}

proof fn first_system_found(list: Seq<Said>, from: int)
    requires
        0 <= from <= list.len(),
    ensures
        from <= prompt_ir::first_system(list, from) <= list.len(),
        prompt_ir::first_system(list, from) < list.len() ==> list[prompt_ir::first_system(
            list,
            from,
        )].role == "system"@,
        forall|j: int|
            from <= j < prompt_ir::first_system(list, from) ==> (#[trigger] list[j]).role
                != "system"@,
    decreases list.len() - from,
{
    if from < list.len() && list[from].role != "system"@ {
        first_system_found(list, from + 1);
    }
}

/// A prompt ends with what was observed, said by the user; before it come the
/// sections that speak for themselves, and before those the messages.
pub proof fn prompts_end_with_the_observation(ir: PromptIRV)
    ensures
        ({
            let r = prompt_ir::compiled(ir);
            let list = prompt_ir::ordered(ir.sections);
            let spoken = prompt_ir::directs(list, list.len());
            let n = prompt_ir::grounded(ir).len();
            &&& ir.observation matches Some(o) ==> r.last() == op::user_said(o.content) && r.len()
                == n + spoken.len() + 1
            &&& ir.observation is None ==> r.len() == n + spoken.len()
            &&& forall|i: int| 0 <= i < n ==> #[trigger] r[i] == prompt_ir::grounded(ir)[i]
            &&& forall|i: int| 0 <= i < spoken.len() ==> r[n + i] == #[trigger] spoken[i]
            &&& prompt_ir::blocks(list, list.len()).len() == 0 ==> prompt_ir::grounded(ir)
                == op::sayings(ir.base_messages)
            &&& prompt_ir::blocks(list, list.len()).len() > 0 ==> prompt_ir::grounded(ir)
                == prompt_ir::injected(
                op::sayings(ir.base_messages),
                "Hydrated context:\n\n"@ + text::joined(
                    prompt_ir::blocks(list, list.len()),
                    "\n\n"@,
                ),
            )
        }),
{
}

/// A text takes at least as many tokens as it has words, at least a quarter of
/// its bytes and at least one, and no more than the greatest of these.
pub proof fn estimates_cover_words_and_bytes(s: Seq<char>)
    ensures
        ({
            let e = prompt_ir::estimate(s);
            let words = prompt_ir::words_before(s, s.len());
            let bytes = hydration::byte_len(s);
            &&& e >= words
            &&& 4 * (e + 1) > bytes
            &&& e >= 1
            &&& e == 1 || e == words || 4 * e <= bytes
        }),
{
}

/// A word is counted where it starts: a space adds none, a character behind a
/// space adds one, and a character behind another adds none.
pub proof fn words_are_counted_where_they_start(s: Seq<char>, c: char)
    ensures
        ({
            let t = s.push(c);
            let before = prompt_ir::words_before(s, s.len());
            let after = prompt_ir::words_before(t, t.len());
            &&& text::is_space(c) ==> after == before
            &&& !text::is_space(c) && (s.len() == 0 || text::is_space(s.last())) ==> after == before
                + 1
            &&& !text::is_space(c) && s.len() > 0 && !text::is_space(s.last()) ==> after == before
        }),
{
    let t = s.push(c);
    same_words(t, s, s.len());
}

proof fn same_words(a: Seq<char>, b: Seq<char>, n: nat)
    requires
        n <= a.len(),
        n <= b.len(),
        forall|i: int| 0 <= i < n ==> #[trigger] a[i] == b[i],
    ensures
        prompt_ir::words_before(a, n) == prompt_ir::words_before(b, n),
    decreases n,
{
    if n > 0 {
        same_words(a, b, (n - 1) as nat);
        assert(a[n - 1] == b[n - 1]);
        if n > 1 {
            assert(a[n - 2] == b[n - 2]);
        }
    }
}

/// A prompt takes what its messages and its sections take together; each one more
/// adds its own.
pub proof fn tokens_add_up(
    base: Seq<ChatMessageV>,
    list: Seq<SectionV>,
    s: SectionV,
    m: ChatMessageV,
)
    ensures
        prompt_ir::all_tokens(Seq::empty(), Seq::empty()) == 0,
        prompt_ir::all_tokens(base, list.push(s)) == prompt_ir::all_tokens(base, list) + s.tokens.0,
        prompt_ir::all_tokens(base.push(m), list) == prompt_ir::all_tokens(base, list)
            + prompt_ir::estimate(
            match m.content {
                Some(t) => t,
                None => Seq::empty(),
            },
        ),
{
    same_sections(list.push(s), list, list.len());
    same_messages(base.push(m), base, base.len());
}

proof fn same_sections(a: Seq<SectionV>, b: Seq<SectionV>, n: nat)
    requires
        n <= a.len(),
        n <= b.len(),
        forall|i: int| 0 <= i < n ==> #[trigger] a[i] == b[i],
    ensures
        prompt_ir::section_tokens(a, n) == prompt_ir::section_tokens(b, n),
    decreases n,
{
    if n > 0 {
        same_sections(a, b, (n - 1) as nat);
        assert(a[n - 1] == b[n - 1]);
    }
}

proof fn same_messages(a: Seq<ChatMessageV>, b: Seq<ChatMessageV>, n: nat)
    requires
        n <= a.len(),
        n <= b.len(),
        forall|i: int| 0 <= i < n ==> #[trigger] a[i] == b[i],
    ensures
        prompt_ir::prompt_tokens(a, n) == prompt_ir::prompt_tokens(b, n),
    decreases n,
{
    if n > 0 {
        same_messages(a, b, (n - 1) as nat);
        assert(a[n - 1] == b[n - 1]);
    }
}

/// A section keeps what it is made of, and knows the digest and the size of its
/// content.
pub proof fn sections_keep_what_they_are_made_of(
    id: Seq<char>,
    label: Seq<char>,
    source: SectionSourceV,
    role: SectionRole,
    content: Seq<char>,
    priority: Priority,
    composition: CompositionMode,
    relevance: Option<Seq<char>>,
    metadata: JsonV,
)
    requires
        prompt_ir::estimate(content) <= usize::MAX,
    ensures
        ({
            let s = prompt_ir::section_of(
                id,
                label,
                source,
                role,
                content,
                priority,
                composition,
                relevance,
                metadata,
            );
            &&& s.id == id
            &&& s.label == label
            &&& s.source == source
            &&& s.role == role
            &&& s.content == content
            &&& s.priority == priority
            &&& s.composition == composition
            &&& s.relevance == relevance
            &&& s.metadata == metadata
            &&& s.recency is None
            &&& s.tokens.0 == prompt_ir::estimate(content)
            &&& s.hash == digest::tagged_digest(content)
        }),
{
}

/// A trace says of a section what it is, with the start of its content, and all
/// of it only where that is wanted.
pub proof fn summaries_keep_what_sections_are(s: SectionV, whole: bool)
    ensures
        ({
            let r = prompt_ir::summary_of(s, whole);
            &&& r.section_id == s.id
            &&& r.label == s.label
            &&& r.source == s.source
            &&& r.role == s.role
            &&& r.priority == s.priority
            &&& r.composition == s.composition
            &&& r.tokens == s.tokens
            &&& r.hash == s.hash
            &&& whole ==> r.content == Some(s.content)
            &&& !whole ==> r.content is None
            &&& r.content_preview.is_prefix_of(s.content)
            &&& s.content.len() <= prompt_ir::CONTENT_PREVIEW_CHARS ==> r.content_preview
                == s.content
            &&& r.content_preview.len() <= prompt_ir::CONTENT_PREVIEW_CHARS
        }),
{
    let r = prompt_ir::summary_of(s, whole);
    assert(s.content.subrange(0, r.content_preview.len() as int) =~= r.content_preview);
}

/// A prompt is known by its digest, keeps what it is put together from, and is
/// made under the usual budget and strategy.
pub proof fn prompts_keep_what_they_are_made_of(
    base: Seq<ChatMessageV>,
    list: Seq<SectionV>,
    timestamp: i128,
)
    requires
        prompt_ir::all_tokens(base, list) <= usize::MAX,
    ensures
        ({
            let p = prompt_ir::prompt_of(base, list, timestamp);
            &&& p.id == p.meta.prompt_hash
            &&& p.base_messages == base
            &&& p.sections == list
            &&& p.tools.len() == 0
            &&& p.observation is None
            &&& p.meta.total_tokens.0 == prompt_ir::all_tokens(base, list)
            &&& p.meta.timestamp == timestamp
            &&& p.meta.budget.total == 8000
            &&& p.meta.strategy.temporal_window == 30
            &&& p.meta.strategy.semantic_limit == 10
            &&& p.meta.strategy.enabled_backends.len() == 0
        }),
{
}

/// A section is written under the names of its parts.
pub proof fn sections_are_written_by_name(s: SectionV)
    ensures
        ({
            let v = prompt_ir::section_json(s);
            &&& v.field("id"@) == Some(JsonV::Str(s.id))
            &&& v.field("label"@) == Some(JsonV::Str(s.label))
            &&& v.field("content"@) == Some(JsonV::Str(s.content))
            &&& v.field("tokens"@) == Some(JsonV::Int(s.tokens.0 as int))
            &&& v.field("role"@) == Some(JsonV::Str(s.role.called()))
            &&& v.field("priority"@) == Some(JsonV::Str(s.priority.called()))
            &&& v.field("composition"@) == Some(JsonV::Str(s.composition.called()))
            &&& v.field("hash"@) == Some(JsonV::Str(s.hash))
            &&& v.field("metadata"@) == Some(s.metadata)
            &&& v.field("recency"@) == Some(codec::nullable(s.recency))
            &&& v.field("relevance"@) == Some(prompt_ir::nullable_decimal(s.relevance))
            &&& v.field("source"@) == Some(prompt_ir::source_json(s.source))
        }),
{
    broadcast use naming::group_naming;

    reveal_strlit("id");
    reveal_strlit("label");
    reveal_strlit("content");
    reveal_strlit("tokens");
    reveal_strlit("role");
    reveal_strlit("priority");
    reveal_strlit("composition");
    reveal_strlit("hash");
    reveal_strlit("metadata");
    reveal_strlit("recency");
    reveal_strlit("relevance");
    reveal_strlit("source");
    assert(mark("id"@).0 == 2 && mark("label"@).0 == 5);
    assert(mark("content"@) == (7nat, 'c', 't', 't') && mark("recency"@) == (7nat, 'r', 'y', 'e'));
    assert(mark("tokens"@) == (6nat, 't', 's', 'e') && mark("source"@) == (6nat, 's', 'e', 'r'));
    assert(mark("role"@) == (4nat, 'r', 'e', 'l') && mark("hash"@) == (4nat, 'h', 'h', 's'));
    assert(mark("priority"@) == (8nat, 'p', 'y', 'r') && mark("metadata"@) == (8nat, 'm', 'a', 'd'));
    assert(mark("composition"@).0 == 11 && mark("relevance"@).0 == 9);
}

/// The kinds of things in a prompt go by names of their own.
pub proof fn kinds_have_names()
    ensures
        SectionRole::System.called() == "System"@,
        SectionRole::Developer.called() == "Developer"@,
        SectionRole::User.called() == "User"@,
        SectionRole::Assistant.called() == "Assistant"@,
        SectionRole::Tool.called() == "Tool"@,
        SectionRole::Context.called() == "Context"@,
        Priority::Low.called() == "Low"@,
        Priority::Medium.called() == "Medium"@,
        Priority::High.called() == "High"@,
        Priority::Critical.called() == "Critical"@,
        CompositionMode::Hierarchical.called() == "Hierarchical"@,
        CompositionMode::Constraint.called() == "Constraint"@,
        CompositionMode::Additive.called() == "Additive"@,
        CompositionMode::Contextual.called() == "Contextual"@,
        RetrievalMode::Temporal.called() == "Temporal"@,
        RetrievalMode::Semantic.called() == "Semantic"@,
        RetrievalTiming::Passive.called() == "Passive"@,
        RetrievalTiming::Active.called() == "Active"@,
        prompt_ir::mode_of(SourceKind::Temporal) == RetrievalMode::Temporal,
        prompt_ir::mode_of(SourceKind::Semantic) == RetrievalMode::Semantic,
        prompt_ir::mode_of(SourceKind::Knowledge) == RetrievalMode::Semantic,
{
}

} // verus!
