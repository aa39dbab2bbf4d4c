//! What context sources give back, and how queries are read.
use crate::ir::SourceKind;
use crate::json::{Json, JsonV};
use crate::op;
use crate::op::push_string;
use crate::text;
use crate::text::{char_is_word, chars_of, contains, string_of, to_lowercase};
use vstd::prelude::*;

verus! {

/// What a source is asked for.
#[derive(Debug)]
pub struct SourceParams {
    pub query: Option<String>,
    pub max_bytes: Option<usize>,
}

/// The model of source parameters.
pub struct SourceParamsV {
    pub query: Option<Seq<char>>,
    pub max_bytes: Option<usize>,
}

impl SourceParams {
    pub open spec fn view(&self) -> SourceParamsV {
        SourceParamsV {
            query: op::opt_text(self.query),
            max_bytes: self.max_bytes,
        }
    }
}

/// What a source gives back.
#[derive(Debug)]
pub struct SourceResult {
    pub source: String,
    pub kind: SourceKind,
    pub content: String,
    pub metadata: Json,
}

/// The model of a source result.
pub struct SourceResultV {
    pub source: Seq<char>,
    pub kind: SourceKind,
    pub content: Seq<char>,
    pub metadata: JsonV,
}

impl SourceResult {
    pub open spec fn view(&self) -> SourceResultV {
        SourceResultV {
            source: self.source@,
            kind: self.kind,
            content: self.content@,
            metadata: self.metadata@,
        }
    }
}

/// The length of a text in UTF-8.
pub open spec fn byte_len(s: Seq<char>) -> nat {
    vstd::utf8::encode_utf8(s).len()
}

/// The length of a text in UTF-8.
pub fn bytes_of(s: &str) -> (r: usize)
    ensures
        r == byte_len(s@),
{
    s.as_bytes().len()
}

/// How many characters of a word a text starts with.
pub open spec fn run_len(s: Seq<char>) -> nat
    decreases s.len(),
{
    if s.len() > 0 && text::is_word_char(s[0]) {
        1 + run_len(s.drop_first())
    } else {
        0
    }
}

proof fn run_fits(s: Seq<char>)
    ensures
        run_len(s) <= s.len(),
    decreases s.len(),
{
    if s.len() > 0 && text::is_word_char(s[0]) {
        run_fits(s.drop_first());
    }
}

/// The words of a text that are long enough to tell anything: those of three
/// characters or more.
pub open spec fn long_words(s: Seq<char>) -> Seq<Seq<char>>
    decreases s.len(),
{
    let n = run_len(s);
    if s.len() == 0 {
        Seq::empty()
    } else if n == 0 {
        long_words(s.drop_first())
    } else if n > s.len() {
        Seq::empty()
    } else if n >= 3 {
        seq![s.take(n as int)] + long_words(s.skip(n as int))
    } else {
        long_words(s.skip(n as int))
    }
}

/// The words that a query looks for, in lower case.
pub open spec fn query_words(query: Seq<char>) -> Seq<Seq<char>> {
    long_words(text::lowercase(query))
}

proof fn run_step(s: Seq<char>, n: nat)
    requires
        n <= s.len(),
        forall|i: int| 0 <= i < n ==> text::is_word_char(#[trigger] s[i]),
        n < s.len() ==> !text::is_word_char(s[n as int]),
    ensures
        run_len(s) == n,
    decreases n,
{
    if n > 0 {
        let rest = s.drop_first();
        assert(text::is_word_char(s[0]));
        assert forall|i: int| 0 <= i < n - 1 implies text::is_word_char(#[trigger] rest[i]) by {
            assert(text::is_word_char(s[i + 1]));
        }
        run_step(rest, (n - 1) as nat);
    }
}

/// The words that a query looks for.
pub fn words_of(query: &str) -> (r: Vec<String>)
    ensures
        op::texts(r@) == query_words(query@),
{
    let s = chars_of(to_lowercase(query).as_str());
    let ghost all = s@;
    let ghost goal = long_words(all);
    let mut out: Vec<String> = Vec::new();
    let mut i: usize = 0;
    assert(all.skip(0) =~= all);
    assert(op::texts(out@) + long_words(all.skip(0)) =~= goal);
    while i < s.len()
        invariant
            i <= s@.len(),
            all == s@,
            goal == op::texts(out@) + long_words(all.skip(i as int)),
        decreases s@.len() - i,
    {
        let ghost rest = all.skip(i as int);
        let mut j: usize = i;
        while j < s.len() && char_is_word(s[j])
            invariant
                i <= j <= s@.len(),
                all == s@,
                rest == all.skip(i as int),
                forall|k: int| 0 <= k < j - i ==> text::is_word_char(#[trigger] rest[k]),
            decreases s@.len() - j,
        {
            assert(rest[j - i] == s@[j as int]);
            j += 1;
        }
        proof {
            assert(j < s@.len() ==> rest[j - i] == s@[j as int]);
            run_step(rest, (j - i) as nat);
        }
        if j == i {
            assert(rest.drop_first() =~= all.skip(i + 1));
            i += 1;
        } else {
            let word = string_of(&s, i, j);
            assert(word@ =~= rest.take(j - i));
            assert(rest.skip(j - i) =~= all.skip(j as int));
            if j - i >= 3 {
                let ghost before = op::texts(out@);
                push_string(&mut out, word);
                assert(before + (seq![word@] + long_words(all.skip(j as int))) =~= op::texts(out@)
                    + long_words(all.skip(j as int)));
            }
            i = j;
        }
    }
    assert(all.skip(i as int) =~= Seq::empty());
    assert(op::texts(out@) + Seq::<Seq<char>>::empty() =~= op::texts(out@));
    out
}

/// Whether a text mentions one of some words, whatever the case.
pub open spec fn mentions(content: Seq<char>, words: Seq<Seq<char>>) -> bool {
    exists|i: int|
        0 <= i < words.len() && text::occurs_in(#[trigger] words[i], text::lowercase(content))
}

/// Whether a text mentions one of some words, whatever the case.
pub fn mentions_any(content: &str, words: &Vec<String>) -> (r: bool)
    ensures
        r == mentions(content@, op::texts(words@)),
{
    let lower = to_lowercase(content);
    let ghost all = op::texts(words@);
    let mut i: usize = 0;
    while i < words.len()
        invariant
            i <= words@.len(),
            all == op::texts(words@),
            lower@ == text::lowercase(content@),
            forall|j: int| 0 <= j < i ==> !text::occurs_in(#[trigger] all[j], lower@),
        decreases words@.len() - i,
    {
        if contains(lower.as_str(), words[i].as_str()) {
            assert(text::occurs_in(all[i as int], lower@));
            return true;
        }
        i += 1;
    }
    false
}

} // verus!
