//! How texts are taken apart, and which model an alias stands for.
use crate::hydration;
use crate::models;
use crate::models::{KeySourceV, ModelEntryV};
use crate::text;
use vstd::prelude::*;

verus! {

/// Whether a text is one word.
pub open spec fn is_word(s: Seq<char>) -> bool {
    s.len() > 0 && forall|i: int| 0 <= i < s.len() ==> text::is_word_char(#[trigger] s[i])
}

proof fn run_of(s: Seq<char>)
    ensures
        hydration::run_len(s) <= s.len(),
        forall|i: int| 0 <= i < hydration::run_len(s) ==> text::is_word_char(#[trigger] s[i]),
        hydration::run_len(s) < s.len() ==> !text::is_word_char(s[hydration::run_len(s) as int]),
    decreases s.len(),
{
    if s.len() > 0 && text::is_word_char(s[0]) {
        let rest = s.drop_first();
        run_of(rest);
        let n = hydration::run_len(rest);
        assert forall|i: int| 0 <= i < n + 1 implies text::is_word_char(#[trigger] s[i]) by {
            if i > 0 {
                assert(rest[i - 1] == s[i]);
            }
        }
        if n + 1 < s.len() {
            assert(rest[n as int] == s[n as int + 1]);
        }
    }
}

/// The words that a query is made of are words, long enough to tell anything, and
/// stand in it.
pub proof fn query_words_are_long(s: Seq<char>, i: int)
    requires
        0 <= i < hydration::long_words(s).len(),
    ensures
        hydration::long_words(s)[i].len() >= 3,
        is_word(hydration::long_words(s)[i]),
        text::occurs_in(hydration::long_words(s)[i], s),
    decreases s.len(),
{
    let n = hydration::run_len(s) as int;
    run_of(s);
    let w = hydration::long_words(s);
    if s.len() > 0 {
        if n == 0 {
            query_words_are_long(s.drop_first(), i);
            assert(s.drop_first() =~= s.skip(1));
            stands_behind(s, 1, w[i]);
        } else if n >= 3 {
            let rest = hydration::long_words(s.skip(n));
            assert(w =~= seq![s.take(n)] + rest);
            if i == 0 {
                assert(w[0] =~= s.take(n));
                assert(s.subrange(0, 0 + w[0].len() as int) =~= w[0]);
                assert(is_word(w[0]));
            } else {
                assert(w[i] == rest[i - 1]);
                query_words_are_long(s.skip(n), i - 1);
                stands_behind(s, n, w[i]);
            }
        } else {
            query_words_are_long(s.skip(n), i);
            stands_behind(s, n, w[i]);
        }
    }
}

proof fn stands_behind(s: Seq<char>, n: int, w: Seq<char>)
    requires
        0 <= n <= s.len(),
        text::occurs_in(w, s.skip(n)),
    ensures
        text::occurs_in(w, s),
{
    let t = s.skip(n);
    let k = choose|k: int|
        0 <= k <= t.len() - w.len() && #[trigger] t.subrange(k, k + w.len()) == w;
    assert(s.subrange(n + k, n + k + w.len()) =~= w);
}

/// A text that is one word of three characters or more is looked for as it is; a
/// shorter one is not looked for.  What stands between words does not matter, and
/// a word is looked for wherever the one before it ended.
pub proof fn long_words_are_looked_for(w: Seq<char>, c: char, rest: Seq<char>)
    requires
        is_word(w),
        !text::is_word_char(c),
    ensures
        w.len() >= 3 ==> hydration::long_words(w) =~= seq![w],
        w.len() < 3 ==> hydration::long_words(w).len() == 0,
        hydration::long_words(seq![c] + rest) == hydration::long_words(rest),
        w.len() >= 3 ==> hydration::long_words(w + seq![c] + rest) =~= seq![w]
            + hydration::long_words(rest),
        w.len() < 3 ==> hydration::long_words(w + seq![c] + rest) == hydration::long_words(rest),
{
    let n = w.len() as int;
    whole_run(w, Seq::empty());
    assert(w + Seq::<char>::empty() =~= w);
    assert(w.take(n) =~= w);
    assert(w.skip(n) =~= Seq::empty());
    assert(hydration::long_words(Seq::empty()) =~= Seq::empty());
    let t = seq![c] + rest;
    assert(t.drop_first() =~= rest);
    assert(hydration::run_len(t) == 0);
    let u = w + t;
    assert(u =~= w + seq![c] + rest);
    whole_run(w, t);
    assert(u.take(n) =~= w);
    assert(u.skip(n) =~= t);
    assert(hydration::long_words(t) == hydration::long_words(rest));
    assert(w.len() >= 3 ==> hydration::long_words(u) == seq![w] + hydration::long_words(t));
}

proof fn whole_run(w: Seq<char>, rest: Seq<char>)
    requires
        forall|i: int| 0 <= i < w.len() ==> text::is_word_char(#[trigger] w[i]),
        rest.len() > 0 ==> !text::is_word_char(rest[0]),
    ensures
        hydration::run_len(w + rest) == w.len(),
    decreases w.len(),
{
    let s = w + rest;
    if w.len() > 0 {
        assert(s[0] == w[0]);
        assert(s.drop_first() =~= w.drop_first() + rest);
        assert forall|i: int| 0 <= i < w.drop_first().len() implies text::is_word_char(
            #[trigger] w.drop_first()[i],
        ) by {
            assert(w[i + 1] == w.drop_first()[i]);
        }
        whole_run(w.drop_first(), rest);
    } else {
        assert(s =~= rest);
    }
}

/// A text mentions a list of words where it holds one of them in lower case; it
/// mentions no empty list, and more words are mentioned no less.
pub proof fn one_word_is_enough(content: Seq<char>, words: Seq<Seq<char>>, w: Seq<char>)
    ensures
        !hydration::mentions(content, Seq::empty()),
        text::occurs_in(w, text::lowercase(content)) ==> hydration::mentions(
            content,
            words.push(w),
        ),
        hydration::mentions(content, words) ==> hydration::mentions(content, words.push(w)),
        hydration::mentions(content, words.push(w)) ==> hydration::mentions(content, words)
            || text::occurs_in(w, text::lowercase(content)),
{
    let more = words.push(w);
    assert(more[words.len() as int] == w);
    if hydration::mentions(content, words) {
        let i = choose|i: int|
            0 <= i < words.len() && text::occurs_in(#[trigger] words[i], text::lowercase(content));
        assert(more[i] == words[i]);
    }
    if hydration::mentions(content, more) {
        let i = choose|i: int|
            0 <= i < more.len() && text::occurs_in(#[trigger] more[i], text::lowercase(content));
        if i < words.len() {
            assert(words[i] == more[i]);
        }
    }
}

/// An alias stands for the first entry of its name: for its provider, its
/// address and the id that it gives, or its own name where it gives none; the
/// key is the one that was found.
pub proof fn aliases_stand_for_their_entry(
    list: Seq<ModelEntryV>,
    i: int,
    key: Option<Seq<char>>,
)
    requires
        0 <= i < list.len(),
        forall|j: int| 0 <= j < i ==> (#[trigger] list[j]).name != list[i].name,
    ensures
        ({
            let e = list[i];
            let r = models::resolution(list, e.name, key);
            &&& models::find(list, e.name) == Some(e)
            &&& r.alias == e.name
            &&& r.provider == Some(e.provider)
            &&& e.api_id matches Some(id) ==> r.api_id == id
            &&& e.api_id is None ==> r.api_id == e.name
            &&& r.base_url == e.base_url
            &&& r.api_key == key
            &&& models::alias_key(list, e.name) == models::key_source(e.api_key)
        }),
{
    first_of_its_name(list, i);
}

proof fn first_of_its_name(list: Seq<ModelEntryV>, i: int)
    requires
        0 <= i < list.len(),
        forall|j: int| 0 <= j < i ==> (#[trigger] list[j]).name != list[i].name,
    ensures
        models::find(list, list[i].name) == Some(list[i]),
    decreases list.len(),
{
    if i > 0 {
        let rest = list.drop_first();
        assert(list[0].name != list[i].name);
        assert(rest[i - 1] == list[i]);
        assert forall|j: int| 0 <= j < i - 1 implies (#[trigger] rest[j]).name != rest[i - 1].name by {
            assert(list[j + 1].name != list[i].name);
        }
        first_of_its_name(rest, i - 1);
    }
}

/// A key that starts with a dollar sign names a variable; any other is the key
/// itself, and a dollar sign alone is neither.  What is not asked for by name is
/// the default.
pub proof fn keys_may_name_variables(s: Seq<char>, d: Seq<char>)
    ensures
        models::key_source(None) == Some(KeySourceV::Missing),
        s.len() > 0 && s[0] != '$' ==> models::key_source(Some(s)) == Some(KeySourceV::Literal(s)),
        s.len() > 0 && s[0] != '$' ==> models::key_source(Some(seq!['$'] + s)) == Some(
            KeySourceV::Env(s),
        ),
        models::key_source(Some(seq!['$'])) is None,
        models::alias_of(d, None) == d,
        models::alias_of(d, Some(s)) == s,
{
    let t = seq!['$'] + s;
    assert(t.drop_first() =~= s);
    assert(seq!['$'].drop_first() =~= Seq::empty());
    assert(models::without_dollars(Seq::empty()) =~= Seq::empty());
    assert(s.len() > 0 && s[0] != '$' ==> models::without_dollars(s) == s);
    assert(models::without_dollars(t) == models::without_dollars(s));
    assert(models::without_dollars(seq!['$']) == models::without_dollars(Seq::empty()));
}

} // verus!
