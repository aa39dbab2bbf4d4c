//! What memories are worth to a query, and how they are served.
use crate::hydration;
use crate::ir::SourceKind;
use crate::ir_hash;
use crate::json::JsonV;
use crate::memory;
use crate::memory::{Hit, MemoryPayloadV, MemoryV, Rank};
use crate::naming;
use crate::naming::mark;
use crate::text;
use vstd::prelude::*;

verus! {

/// Whether a word occurs in the name, in the description and in the body of a
/// memory.
pub open spec fn found_in(m: MemoryV, word: Seq<char>, name: bool, description: bool, body: bool) -> bool {
    &&& text::occurs_in(word, text::lowercase(m.name)) == name
    &&& text::occurs_in(word, text::lowercase(m.description)) == description
    &&& text::occurs_in(word, text::lowercase(m.body)) == body
}

/// A word in the name of a memory counts more than one in a description, and
/// that more than one in a body, which counts more than none; a name counts as
/// much as a description and a body together, and what is found in several
/// places counts in each.
pub proof fn names_count_more_than_bodies(
    a: MemoryV,
    b: MemoryV,
    c: MemoryV,
    d: MemoryV,
    word: Seq<char>,
)
    requires
        found_in(a, word, true, false, false),
        found_in(b, word, false, true, false),
        found_in(c, word, false, false, true),
    ensures
        a.worth(word) > b.worth(word),
        b.worth(word) > c.worth(word),
        c.worth(word) > 0,
        a.worth(word) == b.worth(word) + c.worth(word),
        found_in(d, word, false, false, false) ==> d.worth(word) == 0,
        found_in(d, word, true, true, false) ==> d.worth(word) == a.worth(word) + b.worth(word),
        found_in(d, word, true, false, true) ==> d.worth(word) == a.worth(word) + c.worth(word),
        found_in(d, word, false, true, true) ==> d.worth(word) == b.worth(word) + c.worth(word),
        found_in(d, word, true, true, true) ==> d.worth(word) == a.worth(word) + b.worth(word)
            + c.worth(word),
{
}

/// A query counts word by word: each word adds what it is worth, and only a
/// memory that some word occurs in is worth anything.
pub proof fn words_add_up(m: MemoryV, words: Seq<Seq<char>>, word: Seq<char>)
    ensures
        m.score(Seq::empty(), 0) == 0,
        m.score(words.push(word), words.len() + 1) == m.score(words, words.len()) + m.worth(word),
        m.score(words, words.len()) > 0 <==> exists|i: int|
            0 <= i < words.len() && !found_in(m, #[trigger] words[i], false, false, false),
{
    same_words(m, words, words.push(word), words.len());
    some_word_counts(m, words, words.len());
}

proof fn same_words(m: MemoryV, a: Seq<Seq<char>>, b: Seq<Seq<char>>, n: nat)
    requires
        n <= a.len(),
        n <= b.len(),
        forall|i: int| 0 <= i < n ==> #[trigger] a[i] == b[i],
    ensures
        m.score(a, n) == m.score(b, n),
    decreases n,
{
    if n > 0 {
        same_words(m, a, b, (n - 1) as nat);
        assert(a[n - 1] == b[n - 1]);
    }
}

proof fn some_word_counts(m: MemoryV, words: Seq<Seq<char>>, n: nat)
    requires
        n <= words.len(),
    ensures
        m.score(words, n) > 0 <==> exists|i: int|
            0 <= i < n && !found_in(m, #[trigger] words[i], false, false, false),
        m.score(words, n) <= 6 * n,
    decreases n,
{
    if n > 0 {
        some_word_counts(m, words, (n - 1) as nat);
        if m.worth(words[n - 1]) > 0 {
            assert(!found_in(m, words[n - 1], false, false, false));
        }
    }
}

/// Whatever is served comes with its better matches first; of equal matches the
/// one with the earlier name, and of equal names the one that was listed first.
pub proof fn higher_keys_come_first(ranks: Seq<Rank>, hits: Seq<Hit>, n: nat)
    requires
        n <= hits.len(),
    ensures
        ({
            let order = memory::ordering(ranks, hits, n);
            forall|a: int, b: int|
                #![trigger order[a], order[b]]
                0 <= a < b < order.len() ==> {
                    let x = ranks[order[a]];
                    let y = ranks[order[b]];
                    &&& x.key >= y.key
                    &&& x.key == y.key ==> !text::text_lt(y.name, x.name)
                    &&& x.key == y.key && x.name == y.name ==> order[a] < order[b]
                }
        }),
{
    memory::ranking_is_complete_and_ordered(ranks, hits, n);
    let order = memory::ordering(ranks, hits, n);
    assert forall|a: int, b: int|
        #![trigger order[a], order[b]]
        0 <= a < b < order.len() implies {
        let x = ranks[order[a]];
        let y = ranks[order[b]];
        &&& x.key >= y.key
        &&& x.key == y.key ==> !text::text_lt(y.name, x.name)
        &&& x.key == y.key && x.name == y.name ==> order[a] < order[b]
    } by {
        let x = ranks[order[a]];
        let y = ranks[order[b]];
        text::text_lt_irreflexive(x.name);
        if text::text_lt(x.name, y.name) && text::text_lt(y.name, x.name) {
            text::text_lt_transitive(x.name, y.name, x.name);
        }
    }
}

/// A query by words serves every memory that one of its words occurs in, and no
/// other, those with the higher score first and equals by name.
pub proof fn better_matches_are_served_first(
    list: Seq<MemoryV>,
    names: Seq<Seq<char>>,
    words: Seq<Seq<char>>,
)
    requires
        words.len() <= u64::MAX,
        names.len() == list.len(),
        forall|i: int| 0 <= i < list.len() ==> (#[trigger] names[i]) == list[i].name,
    ensures
        ({
            let hits = memory::keyword_hits_of(list, words);
            let order = memory::ordering(memory::ranks(names, hits), hits, hits.len());
            let n = words.len();
            &&& hits.len() == list.len()
            &&& forall|x: int| #[trigger]
                order.contains(x) <==> 0 <= x < list.len() && list[x].score(words, n) > 0
            &&& forall|a: int, b: int|
                #![trigger order[a], order[b]]
                0 <= a < b < order.len() ==> {
                    let x = list[order[a]];
                    let y = list[order[b]];
                    &&& x.score(words, n) >= y.score(words, n)
                    &&& x.score(words, n) == y.score(words, n) ==> !text::text_lt(y.name, x.name)
                }
        }),
{
    let hits = memory::keyword_hits_of(list, words);
    let ranks = memory::ranks(names, hits);
    let order = memory::ordering(ranks, hits, hits.len());
    memory::ranking_is_complete_and_ordered(ranks, hits, hits.len());
    higher_keys_come_first(ranks, hits, hits.len());
    assert forall|x: int| 0 <= x < list.len() implies (#[trigger] hits[x]).key == list[x].score(
        words,
        words.len(),
    ) && hits[x].keyword == list[x].score(words, words.len()) && !hits[x].close by {
        some_word_counts(list[x], words, words.len());
    }
    assert forall|x: int| #[trigger] order.contains(x) <==> 0 <= x < list.len() && list[x].score(
        words,
        words.len(),
    ) > 0 by {
        if 0 <= x < list.len() {
            assert(hits[x].keyword == list[x].score(words, words.len()));
        }
    }
    assert forall|a: int, b: int|
        #![trigger order[a], order[b]]
        0 <= a < b < order.len() implies {
        let x = list[order[a]];
        let y = list[order[b]];
        &&& x.score(words, words.len()) >= y.score(words, words.len())
        &&& x.score(words, words.len()) == y.score(words, words.len()) ==> !text::text_lt(
            y.name,
            x.name,
        )
    } by {
        assert(order.contains(order[a]) && order.contains(order[b]));
        assert(hits[order[a]].key == list[order[a]].score(words, words.len()));
        assert(hits[order[b]].key == list[order[b]].score(words, words.len()));
        assert(names[order[a]] == list[order[a]].name && names[order[b]] == list[order[b]].name);
    }
}

/// The blocks up to the first that does not fit, with an empty line between
/// them.
proof fn packing(blocks: Seq<Seq<char>>, k: nat, content: Seq<char>, max: nat)
    requires
        k <= blocks.len(),
        content == text::joined(blocks.take(k as int), "\n\n"@),
        forall|i: int| 0 <= i < blocks.len() ==> (#[trigger] blocks[i]).len() > 0,
    ensures
        ({
            let p = memory::packed(blocks, k, content, max);
            &&& k <= p.1 <= blocks.len()
            &&& p.0 == text::joined(blocks.take(p.1 as int), "\n\n"@)
            &&& p.1 < blocks.len() ==> hydration::byte_len(
                text::joined(blocks.take(p.1 as int + 1), "\n\n"@),
            ) > max
        }),
    decreases blocks.len() - k,
{
    if k < blocks.len() {
        let next = if content.len() == 0 {
            blocks[k as int]
        } else {
            content + "\n\n"@ + blocks[k as int]
        };
        let more = blocks.take(k as int + 1);
        assert(more.drop_last() =~= blocks.take(k as int));
        assert(more.last() == blocks[k as int]);
        if k == 0 {
            assert(more[0] == blocks[0]);
        } else {
            not_empty(blocks.take(k as int));
        }
        assert(next == text::joined(more, "\n\n"@));
        if hydration::byte_len(next) <= max {
            packing(blocks, k + 1, next, max);
        }
    }
}

proof fn not_empty(list: Seq<Seq<char>>)
    requires
        list.len() > 0,
        forall|i: int| 0 <= i < list.len() ==> (#[trigger] list[i]).len() > 0,
    ensures
        text::joined(list, "\n\n"@).len() > 0,
{
    assert(list[0].len() > 0);
    assert(list[list.len() - 1].len() > 0);
}

/// What is served to a query is the memories in their order, as many as fit, with
/// an empty line between them and the next one too much; their names are told in
/// the same order, and how many there would have been.
pub proof fn what_fits_is_served_in_order(
    list: Seq<MemoryV>,
    query: Option<Seq<char>>,
    order: Seq<int>,
    semantic: bool,
    max: nat,
)
    requires
        memory::asks(query),
    ensures
        ({
            let r = memory::retrieved(list, query, order, semantic, max);
            let blocks = Seq::new(order.len(), |i: int| list[order[i]].shown());
            exists|k: nat|
                {
                    &&& k <= order.len()
                    &&& r.content == #[trigger] text::joined(blocks.take(k as int), "\n\n"@)
                    &&& k < order.len() ==> hydration::byte_len(
                        text::joined(blocks.take(k as int + 1), "\n\n"@),
                    ) > max
                    &&& r.metadata.field("memories"@) matches Some(JsonV::Array(names))
                    &&& names.len() == k
                    &&& forall|i: int|
                        0 <= i < k ==> #[trigger] names[i] == JsonV::Str(list[order[i]].name)
                    &&& r.metadata.field("total"@) == Some(JsonV::Int(order.len() as int))
                    &&& r.metadata.field("semantic"@) == Some(JsonV::Bool(semantic))
                    &&& r.metadata.field("index_only"@) == Some(JsonV::Bool(false))
                    &&& r.source == "memory"@
                    &&& r.kind == SourceKind::Semantic
                }
        }),
{
    let blocks = memory::shown_at(list, order);
    assert(blocks =~= Seq::new(order.len(), |i: int| list[order[i]].shown()));
    assert forall|i: int| 0 <= i < blocks.len() implies (#[trigger] blocks[i]).len() > 0 by {
        reveal_strlit("### ");
    }
    assert(text::joined(blocks.take(0), "\n\n"@) =~= Seq::empty());
    packing(blocks, 0, Seq::empty(), max);
    let p = memory::packed(blocks, 0, Seq::empty(), max);
    metadata_reads(false, ir_hash::texts_json(memory::named_at(list, order, p.1)), semantic, order.len() as int);
    let r = memory::retrieved(list, query, order, semantic, max);
    assert(r.content == text::joined(blocks.take(p.1 as int), "\n\n"@));
}

/// Without a query the index is served: a line for each memory, in the order in
/// which they are listed, as many as fit.
pub proof fn the_index_lists_every_memory(
    list: Seq<MemoryV>,
    query: Option<Seq<char>>,
    order: Seq<int>,
    semantic: bool,
    max: nat,
)
    requires
        !memory::asks(query),
    ensures
        ({
            let r = memory::retrieved(list, query, order, semantic, max);
            let lines = Seq::new(list.len(), |i: int| list[i].listed());
            exists|k: nat|
                {
                    &&& k <= list.len()
                    &&& r.content == #[trigger] text::joined(lines.take(k as int), "\n\n"@)
                    &&& k < list.len() ==> hydration::byte_len(
                        text::joined(lines.take(k as int + 1), "\n\n"@),
                    ) > max
                    &&& r.metadata.field("memories"@) matches Some(JsonV::Array(names))
                    &&& names.len() == k
                    &&& forall|i: int| 0 <= i < k ==> #[trigger] names[i] == JsonV::Str(list[i].name)
                    &&& r.metadata.field("total"@) == Some(JsonV::Int(list.len() as int))
                    &&& r.metadata.field("semantic"@) == Some(JsonV::Bool(false))
                    &&& r.metadata.field("index_only"@) == Some(JsonV::Bool(true))
                }
        }),
{
    let lines = memory::index_of(list);
    assert(lines =~= Seq::new(list.len(), |i: int| list[i].listed()));
    assert forall|i: int| 0 <= i < lines.len() implies (#[trigger] lines[i]).len() > 0 by {
        reveal_strlit("- ");
    }
    assert(text::joined(lines.take(0), "\n\n"@) =~= Seq::empty());
    packing(lines, 0, Seq::empty(), max);
    let p = memory::packed(lines, 0, Seq::empty(), max);
    metadata_reads(
        true,
        ir_hash::texts_json(memory::named_at(list, memory::everywhere(list.len()), p.1)),
        false,
        list.len() as int,
    );
    let r = memory::retrieved(list, query, order, semantic, max);
    assert(r.content == text::joined(lines.take(p.1 as int), "\n\n"@));
}

proof fn metadata_reads(index_only: bool, names: JsonV, semantic: bool, total: int)
    ensures
        ({
            let m = JsonV::Object(
                seq![
                    ("index_only"@, JsonV::Bool(index_only)),
                    ("memories"@, names),
                    ("semantic"@, JsonV::Bool(semantic)),
                    ("total"@, JsonV::Int(total)),
                ],
            );
            &&& m.field("index_only"@) == Some(JsonV::Bool(index_only))
            &&& m.field("memories"@) == Some(names)
            &&& m.field("semantic"@) == Some(JsonV::Bool(semantic))
            &&& m.field("total"@) == Some(JsonV::Int(total))
        }),
{
    broadcast use naming::group_naming;

    reveal_strlit("index_only");
    reveal_strlit("memories");
    reveal_strlit("semantic");
    reveal_strlit("total");
    assert(mark("index_only"@).0 == 10);
    assert(mark("memories"@) == (8nat, 'm', 's', 'r'));
    assert(mark("semantic"@) == (8nat, 's', 'c', 'n'));
    assert(mark("total"@).0 == 5);
    let f = Seq::empty().push(("index_only"@, JsonV::Bool(index_only))).push(
        ("memories"@, names),
    ).push(("semantic"@, JsonV::Bool(semantic))).push(("total"@, JsonV::Int(total)));
    let g = seq![
        ("index_only"@, JsonV::Bool(index_only)),
        ("memories"@, names),
        ("semantic"@, JsonV::Bool(semantic)),
        ("total"@, JsonV::Int(total)),
    ];
    assert(f =~= g);
}

/// A memory is shown under its name, with its type and its description where it
/// has them, and its body below; in the index it is one line.
pub proof fn memories_are_shown_under_their_names(m: MemoryV)
    ensures
        ("### "@ + m.name).is_prefix_of(m.shown()),
        ("\n"@ + m.body).is_suffix_of(m.shown()),
        m.memory_type is None && m.description.len() == 0 ==> m.shown() == "### "@ + m.name + "\n"@
            + m.body,
        m.memory_type matches Some(t) ==> ("### "@ + m.name + " ("@ + t + ")"@).is_prefix_of(
            m.shown(),
        ),
        m.description.len() > 0 ==> (" — "@ + m.description + "\n"@ + m.body).is_suffix_of(
            m.shown(),
        ),
        ("- "@ + m.name).is_prefix_of(m.listed()),
        m.description.is_suffix_of(m.listed()),
{
    let s = m.shown();
    let h = "### "@ + m.name;
    assert(s.subrange(0, h.len() as int) =~= h);
    let t = "\n"@ + m.body;
    assert(s.subrange(s.len() - t.len(), s.len() as int) =~= t);
    if m.memory_type is Some {
        let k = "### "@ + m.name + " ("@ + m.memory_type->0 + ")"@;
        assert(s.subrange(0, k.len() as int) =~= k);
    }
    if m.description.len() > 0 {
        let d = " — "@ + m.description + "\n"@ + m.body;
        assert(s.subrange(s.len() - d.len(), s.len() as int) =~= d);
    }
    let l = m.listed();
    let h = "- "@ + m.name;
    assert(l.subrange(0, h.len() as int) =~= h);
    assert(l.subrange(l.len() - m.description.len(), l.len() as int) =~= m.description);
}

/// A payload is read by the names of its parts; the body is what it needs.
pub proof fn payloads_are_read_by_name(v: JsonV)
    requires
        v is Object,
    ensures
        memory::payload_of(v) matches Some(p) ==> {
            &&& v.field("body"@) == Some(JsonV::Str(p.body))
            &&& v.field("description"@) matches Some(JsonV::Str(s)) ==> p.description == s
            &&& v.field("description"@) is None ==> p.description.len() == 0
            &&& p.name matches Some(s) ==> v.field("name"@) == Some(JsonV::Str(s))
            &&& p.name is None ==> v.field("name"@) is None || v.field("name"@) == Some(JsonV::Null)
            &&& p.memory_type matches Some(s) ==> v.field("type"@) == Some(JsonV::Str(s))
            &&& p.memory_type is None ==> v.field("type"@) is None || v.field("type"@) == Some(
                JsonV::Null,
            )
        },
        v.field("body"@) is None ==> memory::payload_of(v) is None,
        v.field("body"@) is Some && (v.field("body"@)->0) is Str && v.field("name"@) is None
            && v.field("description"@) is None && v.field("type"@) is None ==> memory::payload_of(
            v,
        ) is Some,
{
}

/// A memory goes by the name it is given; without one by its description, and
/// without that by its body.
pub proof fn names_are_derived_last(p: MemoryPayloadV)
    ensures
        p.name matches Some(s) ==> !text::blank(s) ==> p.wanted() == s,
        p.name is None && memory::slug_of(p.description).len() > 0 ==> p.wanted()
            == memory::slug_of(p.description),
        p.name is None && memory::slug_of(p.description).len() == 0 ==> p.wanted()
            == memory::slug_of(p.body),
        p.name matches Some(s) ==> text::blank(s) ==> p.wanted() == (MemoryPayloadV {
            name: None,
            ..p
        }).wanted(),
{
}

/// What stands for a memory where meanings are compared holds all of it, its name
/// first and its body last.
pub proof fn meanings_cover_the_memory(name: Seq<char>, description: Seq<char>, body: Seq<char>)
    ensures
        ({
            let t = memory::embed_text_of(name, description, body);
            &&& t.len() == name.len() + description.len() + body.len() + 2
            &&& name.is_prefix_of(t)
            &&& body.is_suffix_of(t)
            &&& t[name.len() as int] == '\n'
            &&& t.subrange(name.len() as int + 1, name.len() as int + 1 + description.len())
                =~= description
            &&& t[t.len() - body.len() - 1] == '\n'
        }),
{
    reveal_strlit("\n");
    let t = memory::embed_text_of(name, description, body);
    assert(t.subrange(0, name.len() as int) =~= name);
    assert(t.subrange(t.len() - body.len(), t.len() as int) =~= body);
}

/// The head of a file says what the memory is; what it does not say is taken from
/// the name of the file or left empty, and a file without a head is all body.
pub proof fn heads_say_what_memories_are(
    raw: Seq<char>,
    front: memory::FrontmatterV,
    fallback: Seq<char>,
)
    ensures
        ({
            let m = memory::memory_of(raw, Some(front), fallback);
            let bare = memory::memory_of(raw, None, fallback);
            &&& front.name matches Some(s) ==> m.name == s
            &&& front.name is None ==> m.name == fallback
            &&& front.description matches Some(s) ==> m.description == s
            &&& front.description is None ==> m.description.len() == 0
            &&& m.memory_type == front.memory_type
            &&& m.body == text::trim(memory::split(raw).1)
            &&& bare.name == fallback
            &&& bare.description.len() == 0
            &&& bare.memory_type is None
            &&& bare.body == text::trim(raw)
        }),
{
}

} // verus!
