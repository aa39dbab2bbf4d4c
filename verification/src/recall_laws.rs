//! How streams are read, how recent turns are shown, and which vectors are
//! known.
use crate::codec;
use crate::embedding;
use crate::embedding::{EntryV, Vectors};
use crate::hydration;
use crate::ir::SourceKind;
use crate::json::JsonV;
use crate::memory;
use crate::memory::MemoryV;
use crate::naming;
use crate::naming::mark;
use crate::op::ChatMessageV;
use crate::sse;
use crate::sse::{SseDecoderV, SseEventV};
use crate::temporal;
use crate::text;
use vstd::prelude::*;

verus! {

proof fn colon_found(head: Seq<char>, rest: Seq<char>, from: int)
    requires
        0 <= from <= head.len(),
        forall|i: int| 0 <= i < head.len() ==> #[trigger] head[i] != ':',
    ensures
        text::first_at(head + seq![':'] + rest, ':', from) == head.len(),
    decreases head.len() - from,
{
    let s = head + seq![':'] + rest;
    if from < head.len() {
        assert(s[from] == head[from]);
        colon_found(head, rest, from + 1);
    } else {
        assert(s[from] == ':');
    }
}

/// A line sets the field before its colon to what stands behind it, with one
/// space between them or none; further spaces belong to the value.
pub proof fn lines_set_fields(head: Seq<char>, value: Seq<char>)
    requires
        forall|i: int| 0 <= i < head.len() ==> #[trigger] head[i] != ':',
    ensures
        ({
            let spaced = head + seq![':'] + (seq![' '] + value);
            let tight = head + seq![':'] + value;
            &&& sse::field_of(spaced) == head
            &&& sse::value_of(spaced) == value
            &&& sse::field_of(tight) == head
            &&& value.len() == 0 || value[0] != ' ' ==> sse::value_of(tight) == value
        }),
{
    colon_found(head, seq![' '] + value, 0);
    colon_found(head, value, 0);
    let n = head.len() as int;
    let spaced = head + seq![':'] + (seq![' '] + value);
    let tight = head + seq![':'] + value;
    assert(spaced.take(n) =~= head);
    assert(tight.take(n) =~= head);
    assert(spaced[n + 1] == ' ');
    assert(spaced.skip(n + 2) =~= value);
    assert(tight.skip(n + 1) =~= value);
    if value.len() > 0 {
        assert(tight[n + 1] == value[0]);
    }
}

/// An event gathers its name and its lines of data, and is complete at an empty
/// line: the data with a line break between each two, under the name that was
/// set last.  Comments and other fields change nothing.
pub proof fn events_gather_their_data(d: SseDecoderV, value: Seq<char>, line: Seq<char>)
    requires
        d.buf.len() == 0,
    ensures
        ({
            let data = "data"@ + seq![':'] + (seq![' '] + value);
            let event = "event"@ + seq![':'] + (seq![' '] + value);
            &&& sse::after_line(d, data).0.data == d.data.push(value)
            &&& sse::after_line(d, data).0.event == d.event
            &&& sse::after_line(d, data).1.len() == 0
            &&& sse::after_line(d, event).0.event == Some(value)
            &&& sse::after_line(d, event).0.data == d.data
            &&& sse::after_line(d, event).1.len() == 0
            &&& line.len() > 0 && line[0] == ':' ==> sse::after_line(d, line).0 == d
                && sse::after_line(d, line).1.len() == 0
            &&& line.len() > 0 && sse::field_of(line) != "event"@ && sse::field_of(line) != "data"@
                ==> sse::after_line(d, line).0 == d && sse::after_line(d, line).1.len() == 0
            &&& d.event is Some || d.data.len() > 0 ==> sse::after_line(d, Seq::empty()).1 =~= seq![
                SseEventV { event: d.event, data: text::joined(d.data, "\n"@) },
            ]
            &&& d.event is None && d.data.len() == 0 ==> sse::after_line(d, Seq::empty()).1.len()
                == 0
            &&& sse::after_line(d, Seq::empty()).0.event is None
            &&& sse::after_line(d, Seq::empty()).0.data.len() == 0
        }),
{
    reveal_strlit("data");
    reveal_strlit("event");
    assert("data"@.len() == 4 && "event"@.len() == 5);
    lines_set_fields("data"@, value);
    lines_set_fields("event"@, value);
    assert(d.buf =~= Seq::empty());
    assert(("data"@ + seq![':'] + (seq![' '] + value))[0] == 'd');
    assert(("event"@ + seq![':'] + (seq![' '] + value))[0] == 'e');
}

/// Lines may end in either way.
pub proof fn line_ends_do_not_matter(s: Seq<char>)
    ensures
        sse::without_end(s.push('\n')) == sse::without_end(s),
        sse::without_end(s.push('\r').push('\n')) == sse::without_end(s),
        s.len() == 0 || (s.last() != '\n' && s.last() != '\r') ==> sse::without_end(s) == s,
{
    assert(s.push('\n').drop_last() =~= s);
    assert(s.push('\r').drop_last() =~= s);
    assert(s.push('\r').push('\n').drop_last() =~= s.push('\r'));
    assert(sse::without_end(s.push('\r')) == sse::without_end(s));
}

/// A turn is shown after a dash under its role, cut to a preview and on one line;
/// a turn that says nothing is not shown, and where words are looked for, only
/// one that mentions them is.
pub proof fn turns_are_shown_by_role(m: ChatMessageV, s: Seq<char>, words: Seq<Seq<char>>)
    requires
        m.content == Some(s),
    ensures
        temporal::turn_line(m) == text::one_line(
            "- "@ + m.role + ": "@ + text::prefix(
                text::trim(s),
                temporal::TURN_PREVIEW_CHARS as nat,
            ),
        ),
        text::blank(s) ==> !temporal::served(m, words),
        !text::blank(s) ==> temporal::served(m, Seq::empty()),
        words.len() > 0 && !text::blank(s) ==> (temporal::served(m, words) <==> hydration::mentions(
            s,
            words,
        )),
{
}

/// Turns are taken from the newest back and shown from the oldest on: one more
/// message adds its line at the end, where it is served and fits, and takes one
/// turn and its bytes from what is left for the others.
pub proof fn turns_are_shown_in_order(
    messages: Seq<ChatMessageV>,
    m: ChatMessageV,
    words: Seq<Seq<char>>,
    turns: nat,
    bytes: nat,
)
    ensures
        ({
            let more = messages.push(m);
            let n = messages.len();
            let size = hydration::byte_len(temporal::turn_line(m)) + 1;
            let shown = temporal::turned(
                temporal::picked(more, n + 1, words, turns + 1, bytes + size),
            );
            let before = temporal::turned(temporal::picked(messages, n, words, turns, bytes));
            &&& temporal::served(m, words) ==> shown =~= before.push(temporal::turn_line(m))
            &&& !temporal::served(m, words) ==> temporal::picked(more, n + 1, words, turns + 1, bytes)
                == temporal::picked(messages, n, words, turns + 1, bytes)
            &&& temporal::picked(messages, n, words, 0, bytes).len() == 0
            &&& temporal::served(m, words) && size > bytes ==> temporal::picked(
                more,
                n + 1,
                words,
                turns + 1,
                bytes,
            ).len() == 0
        }),
{
    let more = messages.push(m);
    let n = messages.len();
    same_turns(more, messages, n, words, turns, bytes);
    same_turns(more, messages, n, words, turns + 1, bytes);
    assert(more[n as int] == m);
    let size = hydration::byte_len(temporal::turn_line(m)) + 1;
    if temporal::served(m, words) {
        let p = temporal::picked(messages, n, words, turns, bytes);
        let q = temporal::picked(more, n + 1, words, turns + 1, bytes + size);
        assert(q =~= seq![temporal::turn_line(m)] + p);
    }
}

proof fn same_turns(
    a: Seq<ChatMessageV>,
    b: Seq<ChatMessageV>,
    n: nat,
    words: Seq<Seq<char>>,
    turns: nat,
    bytes: nat,
)
    requires
        n <= a.len(),
        n <= b.len(),
        forall|i: int| 0 <= i < n ==> #[trigger] a[i] == b[i],
    ensures
        temporal::picked(a, n, words, turns, bytes) == temporal::picked(b, n, words, turns, bytes),
    decreases n,
{
    if n > 0 && turns > 0 {
        let m = a[n - 1];
        assert(m == b[n - 1]);
        let size = hydration::byte_len(temporal::turn_line(m)) + 1;
        if !temporal::served(m, words) {
            same_turns(a, b, (n - 1) as nat, words, turns, bytes);
        } else if size <= bytes {
            same_turns(a, b, (n - 1) as nat, words, (turns - 1) as nat, (bytes - size) as nat);
        }
    }
}

/// What is shown of a session says which run and which checkpoint it comes from,
/// and how many turns it shows, one below the other.
pub proof fn recent_turns_say_where_they_come_from(
    run: Seq<char>,
    n: u64,
    messages: Seq<ChatMessageV>,
    words: Seq<Seq<char>>,
    turns: nat,
    bytes: nat,
)
    ensures
        ({
            let r = temporal::recent_turns(run, n, messages, words, turns, bytes);
            let lines = temporal::turned(
                temporal::picked(messages, messages.len(), words, turns, bytes),
            );
            &&& r.metadata.field("run_id"@) == Some(JsonV::Str(run))
            &&& r.metadata.field("sequence"@) == Some(JsonV::Int(n as int))
            &&& r.metadata.field("turns"@) == Some(JsonV::Int(lines.len() as int))
            &&& r.kind == SourceKind::Temporal
            &&& r.source == "temporal-checkpoints"@
            &&& lines.len() == 0 ==> r.content.len() == 0
            &&& lines.len() > 0 ==> text::joined(lines, "\n"@).is_suffix_of(r.content)
            &&& lines.len() > 0 ==> ("### recent session turns (run "@ + run).is_prefix_of(r.content)
            &&& temporal::no_turns().content.len() == 0
            &&& temporal::no_turns().metadata.field("turns"@) == Some(JsonV::Int(0))
        }),
{
    broadcast use naming::group_naming;

    reveal_strlit("run_id");
    reveal_strlit("sequence");
    reveal_strlit("turns");
    assert(mark("run_id"@).0 == 6 && mark("sequence"@).0 == 8 && mark("turns"@).0 == 5);
    let r = temporal::recent_turns(run, n, messages, words, turns, bytes);
    let lines = temporal::turned(temporal::picked(messages, messages.len(), words, turns, bytes));
    let f = Seq::empty().push(("run_id"@, JsonV::Str(run))).push(
        ("sequence"@, JsonV::Int(n as int)),
    ).push(("turns"@, JsonV::Int(lines.len() as int)));
    assert(r.metadata->Object_0 =~= f);
    let g = Seq::empty().push(("turns"@, JsonV::Int(0)));
    assert(temporal::no_turns().metadata->Object_0 =~= g);
    if lines.len() > 0 {
        let t = text::joined(lines, "\n"@);
        assert(r.content.subrange(r.content.len() - t.len(), r.content.len() as int) =~= t);
        let h = "### recent session turns (run "@ + run;
        assert(r.content.subrange(0, h.len() as int) =~= h);
    }
}

/// A checkpoint is read by the names of its parts.
pub proof fn checkpoints_are_read_by_name(v: JsonV)
    ensures
        temporal::head_of(v) matches Some((run, n, m)) ==> v.field("run_id"@) == Some(
            JsonV::Str(run),
        ) && v.field("sequence"@) == Some(JsonV::Int(n as int)) && v.field("messages"@) == Some(m),
        v.field("run_id"@) is None || v.field("sequence"@) is None || v.field("messages"@) is None
            ==> !temporal::is_checkpoint(v),
        temporal::is_checkpoint(v) ==> (v.field("messages"@) matches Some(JsonV::Array(l))
            && codec::all_messages(l)),
{
}

/// A vector is known by the name of a memory and by what the memory says: once it
/// says something else, it is not known.
pub proof fn vectors_follow_what_is_said(
    x: Vectors,
    m: MemoryV,
    hash: Seq<char>,
    vector: Seq<u32>,
)
    ensures
        ({
            let y = x.insert(m.name, EntryV { hash, vector });
            &&& embedding::vector_of(y, m.name, hash) == Some(vector)
            &&& embedding::hash_of(m) != hash ==> !embedding::knows(y, m)
            &&& embedding::hash_of(m) == hash ==> embedding::knows(y, m)
            &&& embedding::hash_of(m) == crate::digest::text_digest(
                memory::embed_text_of(m.name, m.description, m.body),
            )
        }),
        !x.dom().contains(m.name) ==> !embedding::knows(x, m),
{
}

/// What is asked for is the vector of the query first, and then those of the
/// memories that are missing, in their order.
pub proof fn the_query_is_asked_first(query: Seq<char>, list: Seq<MemoryV>, at: Seq<int>, i: int)
    requires
        0 <= i < at.len(),
    ensures
        embedding::embed_inputs_of(query, list, at).len() == at.len() + 1,
        embedding::embed_inputs_of(query, list, at)[0] == query,
        embedding::embed_inputs_of(query, list, at)[i + 1] == memory::embed_text_of(
            list[at[i]].name,
            list[at[i]].description,
            list[at[i]].body,
        ),
{
}

/// The memories whose vectors are missing are those that are not known, in their
/// order.
pub proof fn unknown_vectors_are_missing(x: Vectors, list: Seq<MemoryV>, n: nat, i: int)
    requires
        n <= list.len(),
    ensures
        embedding::missing_from(x, list, n).contains(i) <==> 0 <= i < n && !embedding::knows(
            x,
            list[i],
        ),
        forall|a: int, b: int|
            0 <= a < b < embedding::missing_from(x, list, n).len() ==> #[trigger] embedding::missing_from(
                x,
                list,
                n,
            )[a] < #[trigger] embedding::missing_from(x, list, n)[b],
        forall|a: int|
            0 <= a < embedding::missing_from(x, list, n).len() ==> 0 <= #[trigger] embedding::missing_from(
                x,
                list,
                n,
            )[a] < n,
    decreases n,
{
    if n > 0 {
        unknown_vectors_are_missing(x, list, (n - 1) as nat, i);
        let a = embedding::missing_from(x, list, (n - 1) as nat);
        let b = embedding::missing_from(x, list, n);
        if a.contains(i) {
            let k = choose|k: int| 0 <= k < a.len() && a[k] == i;
            assert(b[k] == i);
        }
        if b.contains(i) {
            let k = choose|k: int| 0 <= k < b.len() && b[k] == i;
            if k < a.len() {
                assert(a[k] == i);
            }
        }
        if i == n - 1 && !embedding::knows(x, list[i]) {
            assert(b[b.len() - 1] == i);
        }
    }
}

/// What is remembered is kept under the name of its memory, with the digest of
/// what the memory says: the last vector that was given for it.
pub proof fn given_vectors_are_kept(
    x: Vectors,
    list: Seq<MemoryV>,
    at: Seq<int>,
    vectors: Seq<Seq<u32>>,
    n: nat,
    i: int,
)
    requires
        n <= at.len(),
        n <= vectors.len(),
        0 <= i < n,
        forall|j: int| i < j < n ==> list[#[trigger] at[j]].name != list[at[i]].name,
    ensures
        ({
            let y = embedding::filled(x, list, at, vectors, n);
            let m = list[at[i]];
            &&& embedding::vector_of(y, m.name, embedding::hash_of(m)) == Some(vectors[i])
            &&& embedding::knows(y, m)
        }),
    decreases n,
{
    if i < n - 1 {
        assert(list[at[n - 1]].name != list[at[i]].name);
        given_vectors_are_kept(x, list, at, vectors, (n - 1) as nat, i);
    }
}

/// The vectors that are handed out are those that are known of the memories, in their
/// order and under their names; of a memory that reads otherwise by now there is none.
pub proof fn known_vectors_are_handed_out(x: Vectors, list: Seq<MemoryV>, m: MemoryV)
    ensures
        ({
            let before = embedding::known_vectors(x, list, list.len());
            let after = embedding::known_vectors(x, list.push(m), list.len() + 1);
            let said = m.name + "\n"@ + m.description + "\n"@ + m.body;
            let known = x.dom().contains(m.name) && x[m.name].hash == crate::digest::text_digest(
                said,
            );
            &&& known ==> after == before.push((m.name, x[m.name].vector))
            &&& !known ==> after == before
        }),
{
    first_ones_stay(x, list, m, list.len());
}

proof fn first_ones_stay(x: Vectors, list: Seq<MemoryV>, m: MemoryV, n: nat)
    requires
        n <= list.len(),
    ensures
        embedding::known_vectors(x, list.push(m), n) == embedding::known_vectors(x, list, n),
    decreases n,
{
    if n > 0 {
        first_ones_stay(x, list, m, (n - 1) as nat);
    }
}

} // verus!
