//! Memories: one fact a file, found again by what it says.
use crate::codec;
use crate::codec::{get_part, read_opt_text};
use crate::hydration;
use crate::hydration::{bytes_of, words_of, SourceResult, SourceResultV};
use crate::ir::SourceKind;
use crate::ir_hash;
use crate::ir_hash::{encode_texts, record4};
use crate::json;
use crate::json::{Json, JsonV};
use crate::op;
use crate::op::push_string;
use crate::text;
use crate::text::{
    char_to_ascii_lower, chars_of, contains, debug_quoted, find_from, is_blank, precedes, same_text,
    starts_with, string_of, to_lowercase, trimmed,
};
use vstd::prelude::*;

verus! {

broadcast use json::group_json;

/// How many bytes of memories are served at most, where nothing else is said.
pub const DEFAULT_MAX_BYTES: usize = 16384;

/// How long a derived slug gets.
pub const SLUG_LENGTH: usize = 48;

/// A memory.
#[derive(Debug)]
pub struct Memory {
    pub name: String,
    pub description: String,
    pub memory_type: Option<String>,
    pub body: String,
}

/// The model of a memory.
pub struct MemoryV {
    pub name: Seq<char>,
    pub description: Seq<char>,
    pub memory_type: Option<Seq<char>>,
    pub body: Seq<char>,
}

impl Memory {
    pub open spec fn view(&self) -> MemoryV {
        MemoryV {
            name: self.name@,
            description: self.description@,
            memory_type: op::opt_text(self.memory_type),
            body: self.body@,
        }
    }
}

/// What the head of a memory file says.
#[derive(Debug)]
pub struct Frontmatter {
    pub name: Option<String>,
    pub description: Option<String>,
    pub memory_type: Option<String>,
}

/// The model of a head.
pub struct FrontmatterV {
    pub name: Option<Seq<char>>,
    pub description: Option<Seq<char>>,
    pub memory_type: Option<Seq<char>>,
}

impl Frontmatter {
    pub open spec fn view(&self) -> FrontmatterV {
        FrontmatterV {
            name: op::opt_text(self.name),
            description: op::opt_text(self.description),
            memory_type: op::opt_text(self.memory_type),
        }
    }
}

/// What a memory to be written holds.
#[derive(Debug)]
pub struct MemoryPayload {
    pub name: Option<String>,
    pub description: String,
    pub memory_type: Option<String>,
    pub body: String,
}

/// The model of a payload.
pub struct MemoryPayloadV {
    pub name: Option<Seq<char>>,
    pub description: Seq<char>,
    pub memory_type: Option<Seq<char>>,
    pub body: Seq<char>,
}

impl MemoryPayload {
    pub open spec fn view(&self) -> MemoryPayloadV {
        MemoryPayloadV {
            name: op::opt_text(self.name),
            description: self.description@,
            memory_type: op::opt_text(self.memory_type),
            body: self.body@,
        }
    }
}

/// Why a memory is not written.
#[derive(Debug)]
pub enum MemoryError {
    BadPayload,
    NoName,
    BadSlug { slug: String },
    Exists { slug: String },
    Renames { id: String, name: String },
    Missing { id: String },
}

/// The model of a memory error.
pub enum MemoryErrorV {
    BadPayload,
    NoName,
    BadSlug { slug: Seq<char> },
    Exists { slug: Seq<char> },
    Renames { id: Seq<char>, name: Seq<char> },
    Missing { id: Seq<char> },
}

impl MemoryError {
    pub open spec fn view(&self) -> MemoryErrorV {
        match self {
            MemoryError::BadPayload => MemoryErrorV::BadPayload,
            MemoryError::NoName => MemoryErrorV::NoName,
            MemoryError::BadSlug { slug } => MemoryErrorV::BadSlug { slug: slug@ },
            MemoryError::Exists { slug } => MemoryErrorV::Exists { slug: slug@ },
            MemoryError::Renames { id, name } => MemoryErrorV::Renames { id: id@, name: name@ },
            MemoryError::Missing { id } => MemoryErrorV::Missing { id: id@ },
        }
    }
}


impl MemoryErrorV {
    /// What an error says.
    pub open spec fn says(self) -> Seq<char> {
        match self {
            MemoryErrorV::BadPayload => "memory payload must be { name?, description?, type?, body }"@,
            MemoryErrorV::NoName => "memory has no name and none could be derived from its description or body"@,
            MemoryErrorV::BadSlug { slug } => "memory id "@ + text::quoted(slug)
                + " must be a kebab-case slug ([a-z0-9-], no leading/trailing dash)"@,
            MemoryErrorV::Exists { slug } => "memory "@ + text::quoted(slug)
                + " already exists; use Update to revise it"@,
            MemoryErrorV::Renames { id, name } => "memory update payload renames "@ + text::quoted(
                id,
            ) + " to "@ + text::quoted(name) + "; delete and re-create instead"@,
            MemoryErrorV::Missing { id } => "no memory "@ + text::quoted(id) + " to update"@,
        }
    }
}

impl MemoryError {
    /// What an error says.
    pub fn message(&self) -> (r: String)
        ensures
            r@ == self@.says(),
    {
        match self {
            MemoryError::BadPayload => "memory payload must be { name?, description?, type?, body }".to_owned(),
            MemoryError::NoName => "memory has no name and none could be derived from its description or body".to_owned(),
            MemoryError::BadSlug { slug } => {
                let mut out = "memory id ".to_owned();
                out.append(debug_quoted(slug.as_str()).as_str());
                out.append(" must be a kebab-case slug ([a-z0-9-], no leading/trailing dash)");
                out
            },
            MemoryError::Exists { slug } => {
                let mut out = "memory ".to_owned();
                out.append(debug_quoted(slug.as_str()).as_str());
                out.append(" already exists; use Update to revise it");
                out
            },
            MemoryError::Renames { id, name } => {
                let mut out = "memory update payload renames ".to_owned();
                out.append(debug_quoted(id.as_str()).as_str());
                out.append(" to ");
                out.append(debug_quoted(name.as_str()).as_str());
                out.append("; delete and re-create instead");
                out
            },
            MemoryError::Missing { id } => {
                let mut out = "no memory ".to_owned();
                out.append(debug_quoted(id.as_str()).as_str());
                out.append(" to update");
                out
            },
        }
    }
}

/// The first place from `i` on at which a text stands in another.
pub open spec fn first_place(whole: Seq<char>, part: Seq<char>, i: int) -> Option<int>
    decreases whole.len() + 1 - i,
{
    if i < 0 || i + part.len() > whole.len() {
        None
    } else if whole.subrange(i, i + part.len()) == part {
        Some(i)
    } else {
        first_place(whole, part, i + 1)
    }
}

proof fn first_place_found(whole: Seq<char>, part: Seq<char>, i: int, at: int)
    requires
        0 <= i <= at,
        at + part.len() <= whole.len(),
        whole.subrange(at, at + part.len()) == part,
        forall|j: int| i <= j < at ==> #[trigger] whole.subrange(j, j + part.len()) != part,
    ensures
        first_place(whole, part, i) == Some(at),
    decreases at - i,
{
    if i < at {
        assert(whole.subrange(i, i + part.len()) != part);
        first_place_found(whole, part, i + 1, at);
    }
}

proof fn first_place_missed(whole: Seq<char>, part: Seq<char>, i: int)
    requires
        0 <= i,
        forall|j: int|
            i <= j <= whole.len() - part.len() ==> #[trigger] whole.subrange(j, j + part.len())
                != part,
    ensures
        first_place(whole, part, i) is None,
    decreases whole.len() + 1 - i,
{
    if i + part.len() <= whole.len() {
        assert(whole.subrange(i, i + part.len()) != part);
        first_place_missed(whole, part, i + 1);
    }
}

fn find_text(whole: &Vec<char>, part: &Vec<char>) -> (r: Option<usize>)
    ensures
        match r {
            Some(i) => i + part@.len() <= whole@.len() && first_place(whole@, part@, 0) == Some(
                i as int,
            ),
            None => first_place(whole@, part@, 0) is None,
        },
{
    let r = find_from(whole, part, 0);
    proof {
        match r {
            Some(i) => {
                first_place_found(whole@, part@, 0, i as int);
            },
            None => {
                first_place_missed(whole@, part@, 0);
            },
        }
    }
    r
}

/// What stands behind the line that opens a head.
pub open spec fn behind_opening(raw: Seq<char>) -> Option<Seq<char>> {
    if "---\n"@.is_prefix_of(raw) {
        Some(raw.skip("---\n"@.len() as int))
    } else if "---\r\n"@.is_prefix_of(raw) {
        Some(raw.skip("---\r\n"@.len() as int))
    } else {
        None
    }
}

/// Parts a head from a body where a line closes the head.
pub open spec fn parted(rest: Seq<char>) -> Option<(Seq<char>, Seq<char>)> {
    match first_place(rest, "\n---\n"@, 0) {
        Some(i) => Some((rest.take(i), rest.skip(i + "\n---\n"@.len()))),
        None => match first_place(rest, "\n---\r\n"@, 0) {
            Some(i) => Some((rest.take(i), rest.skip(i + "\n---\r\n"@.len()))),
            None => if "\n---"@.is_suffix_of(rest) {
                Some((rest.take(rest.len() - "\n---"@.len()), Seq::empty()))
            } else {
                None
            },
        },
    }
}

/// The head and the body of a memory file; without a head, all is body.
pub open spec fn split(raw: Seq<char>) -> (Option<Seq<char>>, Seq<char>) {
    match behind_opening(raw) {
        Some(rest) => match parted(rest) {
            Some(p) => (Some(p.0), p.1),
            None => (None, raw),
        },
        None => (None, raw),
    }
}

fn part_at(rest: &Vec<char>, mark: &str) -> (r: Option<(String, String)>)
    ensures
        match r {
            Some(p) => first_place(rest@, mark@, 0) matches Some(i) && p.0@ == rest@.take(i)
                && p.1@ == rest@.skip(i + mark@.len()),
            None => first_place(rest@, mark@, 0) is None,
        },
{
    let m = chars_of(mark);
    match find_text(rest, &m) {
        Some(i) => {
            let front = string_of(rest, 0, i);
            let n = rest.len();
            let body = string_of(rest, i + m.len(), n);
            assert(front@ =~= rest@.take(i as int));
            assert(body@ =~= rest@.skip(i + mark@.len()));
            Some((front, body))
        },
        None => None,
    }
}

fn ends_with(whole: &Vec<char>, part: &str) -> (r: bool)
    ensures
        r == part@.is_suffix_of(whole@),
{
    let p = chars_of(part);
    if p.len() > whole.len() {
        return false;
    }
    let tail = string_of(whole, whole.len() - p.len(), whole.len());
    same_text(tail.as_str(), part)
}

fn part(rest: &Vec<char>) -> (r: Option<(String, String)>)
    ensures
        match r {
            Some(p) => parted(rest@) == Some((p.0@, p.1@)),
            None => parted(rest@) is None,
        },
{
    match part_at(rest, "\n---\n") {
        Some(p) => Some(p),
        None => match part_at(rest, "\n---\r\n") {
            Some(p) => Some(p),
            None => {
                if ends_with(rest, "\n---") {
                    let mark = chars_of("\n---");
                    let front = string_of(rest, 0, rest.len() - mark.len());
                    let body = String::new();
                    assert(front@ =~= rest@.take(rest@.len() - "\n---"@.len()));
                    assert(body@ =~= Seq::empty());
                    Some((front, body))
                } else {
                    None
                }
            },
        },
    }
}

fn skip_text(raw: &Vec<char>, n: usize) -> (r: Vec<char>)
    requires
        n <= raw@.len(),
    ensures
        r@ == raw@.skip(n as int),
{
    let rest = string_of(raw, n, raw.len());
    let out = chars_of(rest.as_str());
    assert(out@ =~= raw@.skip(n as int));
    out
}

/// Parts the head of a memory file from its body.
pub fn split_frontmatter(raw: &str) -> (r: (Option<String>, String))
    ensures
        (op::opt_text(r.0), r.1@) == split(raw@),
{
    let all = chars_of(raw);
    let rest = if starts_with(raw, "---\n") {
        let mark = chars_of("---\n");
        Some(skip_text(&all, mark.len()))
    } else if starts_with(raw, "---\r\n") {
        let mark = chars_of("---\r\n");
        Some(skip_text(&all, mark.len()))
    } else {
        None
    };
    match rest {
        Some(rest) => match part(&rest) {
            Some(p) => (Some(p.0), p.1),
            None => (None, raw.to_owned()),
        },
        None => (None, raw.to_owned()),
    }
}

/// The text of a memory file.
pub open spec fn file_of(front: Seq<char>, body: Seq<char>) -> Seq<char> {
    "---\n"@ + front + "---\n\n"@ + text::trim(body) + "\n"@
}

/// The text of a memory file with a head and a body.
pub fn file_text(front: &str, body: &str) -> (r: String)
    ensures
        r@ == file_of(front@, body@),
{
    let mut out = "---\n".to_owned();
    out.append(front);
    out.append("---\n\n");
    out.append(trimmed(body).as_str());
    out.append("\n");
    out
}

/// What is written is read back: the head as it is, the body on a line of its
/// own.  A head is a text whose last line is ended and none of whose lines
/// closes it.
pub proof fn written_files_are_read_back(front: Seq<char>, body: Seq<char>)
    requires
        front.len() > 0,
        front.last() == '\n',
        first_place(front, "\n---\n"@, 0) is None,
    ensures
        split(file_of(front, body)) == (
            Some(front.drop_last()),
            "\n"@ + text::trim(body) + "\n"@,
        ),
{
    let raw = file_of(front, body);
    let f = front.drop_last();
    let tail = "\n"@ + text::trim(body) + "\n"@;
    reveal_strlit("---\n");
    reveal_strlit("---\n\n");
    reveal_strlit("\n---\n");
    reveal_strlit("\n");
    assert(front =~= f.push('\n'));
    assert(raw.subrange(0, 4) =~= "---\n"@);
    assert("---\n"@.is_prefix_of(raw));
    assert(raw.skip(4) =~= f + "\n---\n"@ + tail);
    closing_is_found(f, tail);
}

proof fn closing_is_found(f: Seq<char>, tail: Seq<char>)
    requires
        first_place(f.push('\n'), "\n---\n"@, 0) is None,
    ensures
        parted(f + "\n---\n"@ + tail) == Some((f, tail)),
{
    let mark = "\n---\n"@;
    let rest = f + mark + tail;
    let at = f.len() as int;
    reveal_strlit("\n---\n");
    assert(rest.subrange(at, at + 5) =~= mark);
    assert forall|j: int| 0 <= j < at implies #[trigger] rest.subrange(j, j + mark.len())
        != mark by {
        if rest.subrange(j, j + 5) == mark {
            assert(mark[0] == rest[j] && mark[4] == rest[j + 4]);
            if j + 5 <= at + 1 {
                assert(f.push('\n').subrange(j, j + 5) =~= mark);
                never_found(f.push('\n'), mark, 0, j);
            } else {
                assert(rest[at] == '\n');
                assert(mark[at - j] == rest[at]);
            }
        }
    }
    first_place_found(rest, mark, 0, at);
    assert(rest.take(at) =~= f);
    assert(rest.skip(at + 5) =~= tail);
}

proof fn never_found(whole: Seq<char>, part: Seq<char>, i: int, at: int)
    requires
        0 <= i <= at,
        at + part.len() <= whole.len(),
        first_place(whole, part, i) is None,
    ensures
        whole.subrange(at, at + part.len()) != part,
    decreases at - i,
{
    if i < at {
        never_found(whole, part, i + 1, at);
    }
}

impl MemoryV {
    /// A memory as it is shown.
    pub open spec fn shown(self) -> Seq<char> {
        let typed = match self.memory_type {
            Some(t) => "### "@ + self.name + " ("@ + t + ")"@,
            None => "### "@ + self.name,
        };
        let header = if self.description.len() == 0 {
            typed
        } else {
            typed + " — "@ + self.description
        };
        header + "\n"@ + self.body
    }

    /// The line of a memory in the index.
    pub open spec fn listed(self) -> Seq<char> {
        "- "@ + self.name + " — "@ + self.description
    }

    /// What a word of a query counts: a name is worth more than a
    /// description, and a description more than a body.
    pub open spec fn worth(self, word: Seq<char>) -> nat {
        (if text::occurs_in(word, text::lowercase(self.name)) {
            3nat
        } else {
            0
        }) + (if text::occurs_in(word, text::lowercase(self.description)) {
            2nat
        } else {
            0
        }) + (if text::occurs_in(word, text::lowercase(self.body)) {
            1nat
        } else {
            0
        })
    }

    /// What the first `n` words of a query count.
    pub open spec fn score(self, words: Seq<Seq<char>>, n: nat) -> nat
        decreases n,
    {
        if n == 0 || n > words.len() {
            0
        } else {
            self.score(words, (n - 1) as nat) + self.worth(words[n - 1])
        }
    }
}

/// The text that stands for a memory where texts are compared by meaning.
pub open spec fn embed_text_of(name: Seq<char>, description: Seq<char>, body: Seq<char>) -> Seq<
    char,
> {
    name + "\n"@ + description + "\n"@ + body
}

/// The text that stands for a memory where texts are compared by meaning.
pub fn embed_text_parts(name: &str, description: &str, body: &str) -> (r: String)
    ensures
        r@ == embed_text_of(name@, description@, body@),
{
    let mut out = name.to_owned();
    out.append("\n");
    out.append(description);
    out.append("\n");
    out.append(body);
    out
}

/// The memory that a file holds, with what its head was found to say.  Of a
/// file without a readable head all is body.
pub open spec fn memory_of(
    raw: Seq<char>,
    front: Option<FrontmatterV>,
    fallback: Seq<char>,
) -> MemoryV {
    match front {
        Some(f) => MemoryV {
            name: match f.name {
                Some(name) => name,
                None => fallback,
            },
            description: match f.description {
                Some(description) => description,
                None => Seq::empty(),
            },
            memory_type: f.memory_type,
            body: text::trim(split(raw).1),
        },
        None => MemoryV {
            name: fallback,
            description: Seq::empty(),
            memory_type: None,
            body: text::trim(raw),
        },
    }
}

fn or_empty(s: Option<String>) -> (r: String)
    ensures
        r@ == (match s {
            Some(t) => t@,
            None => Seq::empty(),
        }),
{
    match s {
        Some(t) => t,
        None => {
            let t = String::new();
            assert(t@ =~= Seq::empty());
            t
        },
    }
}

fn weight(whole: &str, word: &str, n: u128) -> (r: u128)
    ensures
        r == (if text::occurs_in(word@, whole@) {
            n as nat
        } else {
            0
        }),
{
    if contains(whole, word) {
        n
    } else {
        0
    }
}

impl Memory {
    /// The memory that a file holds.  A file without a readable head is still
    /// a memory: it is named by its file, and all of it is body.
    pub fn parse(raw: &str, front: Option<Frontmatter>, fallback: String) -> (r: Self)
        ensures
            r@ == memory_of(
                raw@,
                match front {
                    Some(f) => Some(f@),
                    None => None,
                },
                fallback@,
            ),
    {
        match front {
            Some(f) => {
                let body = trimmed(split_frontmatter(raw).1.as_str());
                let name = match f.name {
                    Some(name) => name,
                    None => fallback,
                };
                let description = or_empty(f.description);
                Memory { name, description, memory_type: f.memory_type, body }
            },
            None => Memory {
                name: fallback,
                description: or_empty(None),
                memory_type: None,
                body: trimmed(raw),
            },
        }
    }

    /// A memory as it is shown.
    pub fn render(&self) -> (r: String)
        ensures
            r@ == self@.shown(),
    {
        let mut out = "### ".to_owned();
        out.append(self.name.as_str());
        match &self.memory_type {
            Some(t) => {
                out.append(" (");
                out.append(t.as_str());
                out.append(")");
            },
            None => {},
        }
        if !self.description.as_str().is_empty() {
            out.append(" — ");
            out.append(self.description.as_str());
        }
        out.append("\n");
        out.append(self.body.as_str());
        out
    }

    /// The line of a memory in the index.
    pub fn list(&self) -> (r: String)
        ensures
            r@ == self@.listed(),
    {
        let mut out = "- ".to_owned();
        out.append(self.name.as_str());
        out.append(" — ");
        out.append(self.description.as_str());
        out
    }

    /// The text that stands for a memory where texts are compared by meaning.
    pub fn embed_text(&self) -> (r: String)
        ensures
            r@ == embed_text_of(self.name@, self.description@, self.body@),
    {
        embed_text_parts(self.name.as_str(), self.description.as_str(), self.body.as_str())
    }

    /// What the words of a query count.
    pub fn score(&self, words: &Vec<String>) -> (r: u128)
        ensures
            r == self@.score(op::texts(words@), words@.len()),
    {
        let name = to_lowercase(self.name.as_str());
        let description = to_lowercase(self.description.as_str());
        let body = to_lowercase(self.body.as_str());
        let ghost all = op::texts(words@);
        let mut total: u128 = 0;
        let mut i: usize = 0;
        while i < words.len()
            invariant
                i <= words@.len(),
                all == op::texts(words@),
                name@ == text::lowercase(self@.name),
                description@ == text::lowercase(self@.description),
                body@ == text::lowercase(self@.body),
                total == self@.score(all, i as nat),
                total <= 6 * i,
            decreases words@.len() - i,
        {
            let word = words[i].as_str();
            assert(word@ == all[i as int]);
            total = total + weight(name.as_str(), word, 3) + weight(description.as_str(), word, 2)
                + weight(body.as_str(), word, 1);
            i += 1;
        }
        total
    }
}

/// What a memory is worth to a query.
#[derive(Debug, Clone, Copy)]
pub struct Hit {
    /// What the words count.
    pub keyword: u128,
    /// Whether the meaning is close enough to count without a word.
    pub close: bool,
    /// What the memory is ordered by, the highest first.
    pub key: u128,
}

/// What a memory is ordered by.
pub struct Rank {
    pub key: nat,
    pub name: Seq<char>,
}

/// Whether one rank comes before another: a higher key, or the same and an
/// earlier name.
pub open spec fn ahead(a: Rank, b: Rank) -> bool {
    a.key > b.key || (a.key == b.key && text::text_lt(a.name, b.name))
}

/// The ranks of some memories.
pub open spec fn ranks(names: Seq<Seq<char>>, hits: Seq<Hit>) -> Seq<Rank> {
    Seq::new(names.len(), |i: int| Rank { key: hits[i].key as nat, name: names[i] })
}

/// Puts a place behind those that it does not come before.
pub open spec fn inserted(order: Seq<int>, ranks: Seq<Rank>, i: int) -> Seq<int>
    decreases order.len(),
{
    if order.len() == 0 || !ahead(ranks[i], ranks[order.last()]) {
        order.push(i)
    } else {
        inserted(order.drop_last(), ranks, i).push(order.last())
    }
}

/// The order in which the first `n` memories are served.
pub open spec fn ordering(ranks: Seq<Rank>, hits: Seq<Hit>, n: nat) -> Seq<int>
    decreases n,
{
    if n == 0 {
        Seq::empty()
    } else {
        let before = ordering(ranks, hits, (n - 1) as nat);
        if hits[n - 1].keyword > 0 || hits[n - 1].close {
            inserted(before, ranks, n - 1)
        } else {
            before
        }
    }
}

/// Whether places stand in order: no later one comes before an earlier one,
/// and of equal ones the first stays first.
pub open spec fn in_order(order: Seq<int>, ranks: Seq<Rank>) -> bool {
    forall|a: int, b: int|
        #![trigger order[a], order[b]]
        0 <= a < b < order.len() ==> ahead(ranks[order[a]], ranks[order[b]]) || (!ahead(
            ranks[order[b]],
            ranks[order[a]],
        ) && order[a] < order[b])
}

proof fn ahead_is_transitive(a: Rank, b: Rank, c: Rank)
    requires
        ahead(a, b),
    ensures
        !ahead(c, b) ==> ahead(a, c),
        ahead(b, c) ==> ahead(a, c),
{
    if a.key == b.key && b.key == c.key {
        if text::text_lt(b.name, c.name) {
            text::text_lt_transitive(a.name, b.name, c.name);
        }
        text::text_lt_total(b.name, c.name);
    }
}

proof fn inserted_members(order: Seq<int>, ranks: Seq<Rank>, i: int)
    ensures
        inserted(order, ranks, i).len() == order.len() + 1,
        forall|x: int| #[trigger]
            inserted(order, ranks, i).contains(x) <==> x == i || order.contains(x),
    decreases order.len(),
{
    let r = inserted(order, ranks, i);
    if order.len() == 0 || !ahead(ranks[i], ranks[order.last()]) {
        assert forall|x: int| #[trigger] r.contains(x) <==> x == i || order.contains(x) by {
            if x == i {
                assert(r[order.len() as int] == i);
            } else if order.contains(x) {
                let k = order.index_of(x);
                assert(r[k] == x);
            }
        }
    } else {
        let less = order.drop_last();
        inserted_members(less, ranks, i);
        let q = inserted(less, ranks, i);
        assert forall|x: int| #[trigger] r.contains(x) <==> x == i || order.contains(x) by {
            if r.contains(x) {
                let k = r.index_of(x);
                if k == q.len() {
                    assert(order[order.len() - 1] == x);
                } else {
                    assert(q[k] == x);
                    assert(q.contains(x));
                    if x != i {
                        let m = less.index_of(x);
                        assert(order[m] == x);
                    }
                }
            }
            if x == i || order.contains(x) {
                if x == i {
                    assert(q.contains(i));
                    let k = q.index_of(i);
                    assert(r[k] == i);
                } else {
                    let m = order.index_of(x);
                    if m == order.len() - 1 {
                        assert(r[q.len() as int] == x);
                    } else {
                        assert(less[m] == x);
                        assert(less.contains(x));
                        assert(q.contains(x));
                        let k = q.index_of(x);
                        assert(r[k] == x);
                    }
                }
            }
        }
    }
}

proof fn inserted_in_order(order: Seq<int>, ranks: Seq<Rank>, i: int)
    requires
        in_order(order, ranks),
        forall|a: int| 0 <= a < order.len() ==> #[trigger] order[a] < i,
    ensures
        in_order(inserted(order, ranks, i), ranks),
    decreases order.len(),
{
    let r = inserted(order, ranks, i);
    if order.len() == 0 {
    } else if !ahead(ranks[i], ranks[order.last()]) {
        assert forall|a: int, b: int|
            #![trigger r[a], r[b]]
            0 <= a < b < r.len() implies ahead(ranks[r[a]], ranks[r[b]]) || (!ahead(
            ranks[r[b]],
            ranks[r[a]],
        ) && r[a] < r[b]) by {
            if b < order.len() {
                assert(r[a] == order[a] && r[b] == order[b]);
            } else {
                assert(r[a] == order[a] && r[b] == i);
                let last = order[order.len() - 1];
                if ahead(ranks[i], ranks[order[a]]) {
                    ahead_is_transitive(ranks[i], ranks[order[a]], ranks[last]);
                    assert(a < order.len() - 1);
                }
            }
        }
    } else {
        let less = order.drop_last();
        let last = order.last();
        assert forall|a: int, b: int|
            #![trigger less[a], less[b]]
            0 <= a < b < less.len() implies ahead(ranks[less[a]], ranks[less[b]]) || (!ahead(
            ranks[less[b]],
            ranks[less[a]],
        ) && less[a] < less[b]) by {
            assert(less[a] == order[a] && less[b] == order[b]);
        }
        assert forall|a: int| 0 <= a < less.len() implies #[trigger] less[a] < i by {
            assert(less[a] == order[a]);
        }
        inserted_in_order(less, ranks, i);
        inserted_members(less, ranks, i);
        let q = inserted(less, ranks, i);
        assert forall|a: int, b: int|
            #![trigger r[a], r[b]]
            0 <= a < b < r.len() implies ahead(ranks[r[a]], ranks[r[b]]) || (!ahead(
            ranks[r[b]],
            ranks[r[a]],
        ) && r[a] < r[b]) by {
            if b < q.len() {
                assert(r[a] == q[a] && r[b] == q[b]);
            } else {
                assert(r[a] == q[a] && r[b] == last);
                assert(q.contains(q[a]));
                if q[a] != i {
                    let m = less.index_of(q[a]);
                    assert(order[m] == q[a] && order[order.len() - 1] == last);
                }
            }
        }
    }
}

/// Every memory that a word or its meaning speaks for is served once, and no
/// other; the order is by key, then by name, then as they came.
pub proof fn ranking_is_complete_and_ordered(ranks: Seq<Rank>, hits: Seq<Hit>, n: nat)
    requires
        n <= hits.len(),
    ensures
        in_order(ordering(ranks, hits, n), ranks),
        ordering(ranks, hits, n).no_duplicates(),
        forall|x: int| #[trigger]
            ordering(ranks, hits, n).contains(x) <==> 0 <= x < n && (hits[x].keyword > 0
                || hits[x].close),
    decreases n,
{
    if n > 0 {
        ranking_is_complete_and_ordered(ranks, hits, (n - 1) as nat);
        let before = ordering(ranks, hits, (n - 1) as nat);
        assert forall|a: int| 0 <= a < before.len() implies #[trigger] before[a] < n - 1 by {
            assert(before.contains(before[a]));
        }
        if hits[n - 1].keyword > 0 || hits[n - 1].close {
            inserted_in_order(before, ranks, n - 1);
            inserted_members(before, ranks, n - 1);
            let r = inserted(before, ranks, n - 1);
            assert forall|a: int, b: int| 0 <= a < b < r.len() implies r[a] != r[b] by {
                if r[a] == r[b] {
                    assert(ahead(ranks[r[a]], ranks[r[b]]));
                    text::text_lt_irreflexive(ranks[r[a]].name);
                }
            }
        }
    }
}

/// The places of some positions.
pub open spec fn places(order: Seq<usize>) -> Seq<int> {
    Seq::new(order.len(), |i: int| order[i] as int)
}

/// The names of some memories.
pub open spec fn names(list: Seq<Memory>) -> Seq<Seq<char>> {
    Seq::new(list.len(), |i: int| list[i].name@)
}

/// Some memories.
pub open spec fn memories(list: Seq<Memory>) -> Seq<MemoryV> {
    Seq::new(list.len(), |i: int| list[i]@)
}

fn goes_ahead(a: &Hit, a_name: &str, b: &Hit, b_name: &str) -> (r: bool)
    ensures
        r == ahead(
            Rank { key: a.key as nat, name: a_name@ },
            Rank { key: b.key as nat, name: b_name@ },
        ),
{
    a.key > b.key || (a.key == b.key && precedes(a_name, b_name))
}

proof fn inserted_at(order: Seq<int>, ranks: Seq<Rank>, i: int, k: int)
    requires
        0 <= k <= order.len(),
        forall|a: int| k <= a < order.len() ==> ahead(ranks[i], ranks[#[trigger] order[a]]),
        k > 0 ==> !ahead(ranks[i], ranks[order[k - 1]]),
    ensures
        inserted(order, ranks, i) == order.insert(k, i),
    decreases order.len(),
{
    if k == order.len() {
        assert(order.insert(k, i) =~= order.push(i));
    } else {
        assert(ahead(ranks[i], ranks[order[order.len() - 1]]));
        let less = order.drop_last();
        assert forall|a: int| k <= a < less.len() implies ahead(
            ranks[i],
            ranks[#[trigger] less[a]],
        ) by {
            assert(less[a] == order[a]);
        }
        inserted_at(less, ranks, i, k);
        assert(order.insert(k, i) =~= less.insert(k, i).push(order.last()));
    }
}

fn insert_place(order: &mut Vec<usize>, list: &Vec<Memory>, hits: &Vec<Hit>, i: usize)
    requires
        list@.len() == hits@.len(),
        i < list@.len(),
        forall|a: int| 0 <= a < old(order)@.len() ==> #[trigger] old(order)@[a] < list@.len(),
    ensures
        places(final(order)@) == inserted(
            places(old(order)@),
            ranks(names(list@), hits@),
            i as int,
        ),
        forall|a: int| 0 <= a < final(order)@.len() ==> #[trigger] final(order)@[a] < list@.len(),
{
    let ghost before = places(order@);
    let ghost all = ranks(names(list@), hits@);
    let mut k: usize = order.len();
    while k > 0 && goes_ahead(
        &hits[i],
        list[i].name.as_str(),
        &hits[order[k - 1]],
        list[order[k - 1]].name.as_str(),
    )
        invariant
            k <= order@.len(),
            before == places(order@),
            order@ == old(order)@,
            all == ranks(names(list@), hits@),
            list@.len() == hits@.len(),
            i < list@.len(),
            forall|a: int| 0 <= a < order@.len() ==> #[trigger] order@[a] < list@.len(),
            forall|a: int|
                k <= a < order@.len() ==> ahead(all[i as int], all[#[trigger] before[a]]),
        decreases k,
    {
        k -= 1;
        assert(before[k as int] == order@[k as int]);
    }
    proof {
        if k > 0 {
            assert(before[k - 1] == order@[k - 1]);
        }
        inserted_at(before, all, i as int, k as int);
    }
    order.insert(k, i);
    assert(places(order@) =~= before.insert(k as int, i as int));
}

/// The order in which memories are served.
pub fn rank(list: &Vec<Memory>, hits: &Vec<Hit>) -> (r: Vec<usize>)
    requires
        list@.len() == hits@.len(),
    ensures
        places(r@) == ordering(ranks(names(list@), hits@), hits@, hits@.len()),
        forall|a: int| 0 <= a < r@.len() ==> #[trigger] r@[a] < list@.len(),
{
    let mut order: Vec<usize> = Vec::new();
    let mut i: usize = 0;
    assert(places(order@) =~= Seq::empty());
    while i < hits.len()
        invariant
            i <= hits@.len(),
            list@.len() == hits@.len(),
            places(order@) == ordering(ranks(names(list@), hits@), hits@, i as nat),
            forall|a: int| 0 <= a < order@.len() ==> #[trigger] order@[a] < list@.len(),
        decreases hits@.len() - i,
    {
        if hits[i].keyword > 0 || hits[i].close {
            insert_place(&mut order, list, hits, i);
        }
        i += 1;
    }
    order
}

/// What serves all memories in the order of their names.
pub open spec fn all_alike(n: nat) -> Seq<Hit> {
    Seq::new(n, |i: int| Hit { keyword: 0, close: true, key: 0 })
}

/// The order of memories by name.
pub fn rank_by_name(list: &Vec<Memory>) -> (r: Vec<usize>)
    ensures
        places(r@) == ordering(
            ranks(names(list@), all_alike(list@.len())),
            all_alike(list@.len()),
            list@.len(),
        ),
        forall|a: int| 0 <= a < r@.len() ==> #[trigger] r@[a] < list@.len(),
{
    let mut hits: Vec<Hit> = Vec::new();
    let mut i: usize = 0;
    while i < list.len()
        invariant
            i <= list@.len(),
            hits@ == all_alike(i as nat),
        decreases list@.len() - i,
    {
        hits.push(Hit { keyword: 0, close: true, key: 0 });
        i += 1;
        assert(hits@ =~= all_alike(i as nat));
    }
    rank(list, &hits)
}

/// Blocks of text with empty lines between them, as far as they fit.  The
/// first one that does not fit ends them.
pub open spec fn packed(blocks: Seq<Seq<char>>, k: nat, content: Seq<char>, max: nat) -> (
    Seq<char>,
    nat,
)
    decreases blocks.len() - k,
{
    if k >= blocks.len() {
        (content, k)
    } else {
        let next = if content.len() == 0 {
            blocks[k as int]
        } else {
            content + "\n\n"@ + blocks[k as int]
        };
        if hydration::byte_len(next) > max {
            (content, k)
        } else {
            packed(blocks, k + 1, next, max)
        }
    }
}

proof fn packed_fits(blocks: Seq<Seq<char>>, k: nat, content: Seq<char>, max: nat)
    requires
        k <= blocks.len(),
        hydration::byte_len(content) <= max,
    ensures
        hydration::byte_len(packed(blocks, k, content, max).0) <= max,
        packed(blocks, k, content, max).1 <= blocks.len(),
    decreases blocks.len() - k,
{
    if k < blocks.len() {
        let next = if content.len() == 0 {
            blocks[k as int]
        } else {
            content + "\n\n"@ + blocks[k as int]
        };
        if hydration::byte_len(next) <= max {
            packed_fits(blocks, k + 1, next, max);
        }
    }
}

/// The byte cap is kept.
pub proof fn byte_cap_is_kept(blocks: Seq<Seq<char>>, max: nat)
    ensures
        hydration::byte_len(packed(blocks, 0, Seq::empty(), max).0) <= max,
        packed(blocks, 0, Seq::empty(), max).1 <= blocks.len(),
{
    assert(hydration::byte_len(Seq::empty()) == 0);
    packed_fits(blocks, 0, Seq::empty(), max);
}

fn pack(blocks: &Vec<String>, max: usize) -> (r: (String, usize))
    ensures
        (r.0@, r.1 as nat) == packed(op::texts(blocks@), 0, Seq::empty(), max as nat),
        r.1 <= blocks@.len(),
{
    let ghost all = op::texts(blocks@);
    let mut content = String::new();
    assert(content@ =~= Seq::empty());
    let mut k: usize = 0;
    let ghost goal = packed(all, 0, Seq::empty(), max as nat);
    while k < blocks.len()
        invariant
            k <= blocks@.len(),
            all == op::texts(blocks@),
            goal == packed(all, 0, Seq::empty(), max as nat),
            goal == packed(all, k as nat, content@, max as nat),
        decreases blocks@.len() - k,
    {
        let mut next = content.clone();
        if !content.as_str().is_empty() {
            next.append("\n\n");
        }
        next.append(blocks[k].as_str());
        assert(content@.len() == 0 ==> next@ =~= all[k as int]);
        if bytes_of(next.as_str()) > max {
            return (content, k);
        }
        content = next;
        k += 1;
    }
    (content, k)
}

/// The memories at some places, as they are shown.
pub open spec fn shown_at(list: Seq<MemoryV>, order: Seq<int>) -> Seq<Seq<char>> {
    Seq::new(order.len(), |i: int| list[order[i]].shown())
}

/// The names at some places.
pub open spec fn named_at(list: Seq<MemoryV>, order: Seq<int>, n: nat) -> Seq<Seq<char>> {
    Seq::new(n, |i: int| list[order[i]].name)
}

/// The lines of the index.
pub open spec fn index_of(list: Seq<MemoryV>) -> Seq<Seq<char>> {
    Seq::new(list.len(), |i: int| list[i].listed())
}

/// All places.
pub open spec fn everywhere(n: nat) -> Seq<int> {
    Seq::new(n, |i: int| i)
}

/// What is served of some blocks.
pub open spec fn served(
    list: Seq<MemoryV>,
    order: Seq<int>,
    blocks: Seq<Seq<char>>,
    index_only: bool,
    semantic: bool,
    max: nat,
) -> SourceResultV {
    let p = packed(blocks, 0, Seq::empty(), max);
    SourceResultV {
        source: "memory"@,
        kind: SourceKind::Semantic,
        content: p.0,
        metadata: JsonV::Object(
            seq![
                ("index_only"@, JsonV::Bool(index_only)),
                ("memories"@, ir_hash::texts_json(named_at(list, order, p.1))),
                ("semantic"@, JsonV::Bool(semantic)),
                ("total"@, JsonV::Int(order.len() as int)),
            ],
        ),
    }
}

/// Whether a query asks for anything.
pub open spec fn asks(query: Option<Seq<char>>) -> bool {
    match query {
        Some(q) => !text::blank(q),
        None => false,
    }
}

/// What is served to a query: with one, the memories that it speaks for; with
/// none, the index.
pub open spec fn retrieved(
    list: Seq<MemoryV>,
    query: Option<Seq<char>>,
    order: Seq<int>,
    semantic: bool,
    max: nat,
) -> SourceResultV {
    if asks(query) {
        served(list, order, shown_at(list, order), false, semantic, max)
    } else {
        served(list, everywhere(list.len()), index_of(list), true, false, max)
    }
}

fn names_at(list: &Vec<Memory>, order: &Vec<usize>, n: usize) -> (r: Vec<String>)
    requires
        n <= order@.len(),
        forall|a: int| 0 <= a < order@.len() ==> #[trigger] order@[a] < list@.len(),
    ensures
        op::texts(r@) == named_at(memories(list@), places(order@), n as nat),
{
    let mut out: Vec<String> = Vec::new();
    let mut i: usize = 0;
    while i < n
        invariant
            i <= n <= order@.len(),
            forall|a: int| 0 <= a < order@.len() ==> #[trigger] order@[a] < list@.len(),
            op::texts(out@) == named_at(memories(list@), places(order@), i as nat),
        decreases n - i,
    {
        push_string(&mut out, list[order[i]].name.clone());
        i += 1;
        assert(named_at(memories(list@), places(order@), i as nat) =~= named_at(
            memories(list@),
            places(order@),
            (i - 1) as nat,
        ).push(list@[order@[i - 1] as int].name@));
    }
    out
}

fn show_at(list: &Vec<Memory>, order: &Vec<usize>) -> (r: Vec<String>)
    requires
        forall|a: int| 0 <= a < order@.len() ==> #[trigger] order@[a] < list@.len(),
    ensures
        op::texts(r@) == shown_at(memories(list@), places(order@)),
{
    let ghost goal = shown_at(memories(list@), places(order@));
    let mut out: Vec<String> = Vec::new();
    let mut i: usize = 0;
    assert(op::texts(out@) =~= goal.take(0));
    while i < order.len()
        invariant
            i <= order@.len(),
            forall|a: int| 0 <= a < order@.len() ==> #[trigger] order@[a] < list@.len(),
            goal == shown_at(memories(list@), places(order@)),
            op::texts(out@) == goal.take(i as int),
        decreases order@.len() - i,
    {
        push_string(&mut out, list[order[i]].render());
        i += 1;
        assert(goal.take(i as int) =~= goal.take(i - 1).push(goal[i - 1]));
    }
    assert(goal.take(i as int) =~= goal);
    out
}

fn list_all(list: &Vec<Memory>) -> (r: Vec<String>)
    ensures
        op::texts(r@) == index_of(memories(list@)),
{
    let ghost goal = index_of(memories(list@));
    let mut out: Vec<String> = Vec::new();
    let mut i: usize = 0;
    assert(op::texts(out@) =~= goal.take(0));
    while i < list.len()
        invariant
            i <= list@.len(),
            goal == index_of(memories(list@)),
            op::texts(out@) == goal.take(i as int),
        decreases list@.len() - i,
    {
        push_string(&mut out, list[i].list());
        i += 1;
        assert(goal.take(i as int) =~= goal.take(i - 1).push(goal[i - 1]));
    }
    assert(goal.take(i as int) =~= goal);
    out
}

fn all_places(n: usize) -> (r: Vec<usize>)
    ensures
        places(r@) == everywhere(n as nat),
{
    let mut out: Vec<usize> = Vec::new();
    let mut i: usize = 0;
    while i < n
        invariant
            i <= n,
            out@.len() == i,
            forall|a: int| 0 <= a < i ==> #[trigger] out@[a] == a,
        decreases n - i,
    {
        out.push(i);
        i += 1;
    }
    assert(places(out@) =~= everywhere(n as nat));
    out
}

fn serve(
    list: &Vec<Memory>,
    order: &Vec<usize>,
    blocks: &Vec<String>,
    index_only: bool,
    semantic: bool,
    max: usize,
) -> (r: SourceResult)
    requires
        blocks@.len() == order@.len(),
        forall|a: int| 0 <= a < order@.len() ==> #[trigger] order@[a] < list@.len(),
    ensures
        r@ == served(
            memories(list@),
            places(order@),
            op::texts(blocks@),
            index_only,
            semantic,
            max as nat,
        ),
{
    let (content, n) = pack(blocks, max);
    let included = names_at(list, order, n);
    let metadata = record4(
        "index_only",
        Json::Bool(index_only),
        "memories",
        encode_texts(&included),
        "semantic",
        Json::Bool(semantic),
        "total",
        Json::Int(order.len() as i128),
    );
    SourceResult { source: "memory".to_owned(), kind: SourceKind::Semantic, content, metadata }
}

fn is_asking(query: Option<&str>) -> (r: bool)
    ensures
        r == asks(
            match query {
                Some(q) => Some(q@),
                None => None,
            },
        ),
{
    match query {
        Some(q) => !is_blank(q),
        None => false,
    }
}

/// Serves memories to a query: with one, those that a word or their meaning
/// speaks for, the best first; with none, the index.
pub fn retrieve(
    list: &Vec<Memory>,
    query: Option<&str>,
    hits: &Vec<Hit>,
    semantic: bool,
    max_bytes: usize,
) -> (r: SourceResult)
    requires
        list@.len() == hits@.len(),
    ensures
        r@ == retrieved(
            memories(list@),
            match query {
                Some(q) => Some(q@),
                None => None,
            },
            ordering(ranks(names(list@), hits@), hits@, hits@.len()),
            semantic,
            max_bytes as nat,
        ),
{
    if is_asking(query) {
        let order = rank(list, hits);
        let blocks = show_at(list, &order);
        assert(op::texts(blocks@).len() == blocks@.len());
        serve(list, &order, &blocks, false, semantic, max_bytes)
    } else {
        let order = all_places(list.len());
        let blocks = list_all(list);
        assert(op::texts(blocks@).len() == blocks@.len());
        assert(places(order@).len() == order@.len());
        assert forall|a: int| 0 <= a < order@.len() implies #[trigger] order@[a] < list@.len() by {
            assert(places(order@)[a] == a);
        }
        serve(list, &order, &blocks, true, false, max_bytes)
    }
}

/// What memories are worth to some words alone.
pub open spec fn keyword_hits_of(list: Seq<MemoryV>, words: Seq<Seq<char>>) -> Seq<Hit> {
    Seq::new(
        list.len(),
        |i: int|
            Hit {
                keyword: list[i].score(words, words.len()) as u128,
                close: false,
                key: list[i].score(words, words.len()) as u128,
            },
    )
}

/// What memories are worth to some words alone.
pub fn keyword_hits(list: &Vec<Memory>, words: &Vec<String>) -> (r: Vec<Hit>)
    ensures
        r@ == keyword_hits_of(memories(list@), op::texts(words@)),
{
    let ghost goal = keyword_hits_of(memories(list@), op::texts(words@));
    let mut out: Vec<Hit> = Vec::new();
    let mut i: usize = 0;
    assert(out@ =~= goal.take(0));
    while i < list.len()
        invariant
            i <= list@.len(),
            goal == keyword_hits_of(memories(list@), op::texts(words@)),
            out@ == goal.take(i as int),
        decreases list@.len() - i,
    {
        let n = list[i].score(words);
        out.push(Hit { keyword: n, close: false, key: n });
        i += 1;
        assert(goal.take(i as int) =~= goal.take(i - 1).push(goal[i - 1]));
    }
    assert(goal.take(i as int) =~= goal);
    out
}

/// Serves memories to a query by its words alone.
pub fn retrieve_by_words(list: &Vec<Memory>, query: Option<&str>, max_bytes: usize) -> (r:
    SourceResult)
    ensures
        ({
            let q = match query {
                Some(q) => q@,
                None => ""@,
            };
            let hits = keyword_hits_of(memories(list@), hydration::query_words(q));
            r@ == retrieved(
                memories(list@),
                match query {
                    Some(q) => Some(q@),
                    None => None,
                },
                ordering(ranks(names(list@), hits), hits, hits.len()),
                false,
                max_bytes as nat,
            )
        }),
{
    let words = match query {
        Some(q) => words_of(q),
        None => words_of(""),
    };
    let hits = keyword_hits(list, &words);
    retrieve(list, query, &hits, false, max_bytes)
}

/// The memories of a directory.
#[derive(Debug)]
pub struct MemorySource {
    pub root: String,
    pub max_bytes: usize,
}

impl MemorySource {
    /// A source over a directory, with the usual limit.
    pub fn new(root: String) -> (r: MemorySource)
        ensures
            r.root@ == root@,
            r.max_bytes == DEFAULT_MAX_BYTES,
    {
        MemorySource { root, max_bytes: DEFAULT_MAX_BYTES }
    }

    /// Serves memories, which are given in the order of their names, to a
    /// query, within the bytes that are asked for or the usual ones.  Where
    /// nothing is known of their meaning, the words of the query alone speak
    /// for them.
    pub fn retrieve(
        &self,
        list: &Vec<Memory>,
        query: Option<&str>,
        hits: Option<Vec<Hit>>,
        max_bytes: Option<usize>,
    ) -> (r: SourceResult)
        requires
            hits matches Some(h) ==> h@.len() == list@.len(),
        ensures
            ({
                let used = match hits {
                    Some(h) => h@,
                    None => keyword_hits_of(
                        memories(list@),
                        match query {
                            Some(q) => hydration::query_words(q@),
                            None => hydration::query_words(""@),
                        },
                    ),
                };
                r@ == retrieved(
                    memories(list@),
                    match query {
                        Some(q) => Some(q@),
                        None => None,
                    },
                    ordering(ranks(names(list@), used), used, used.len()),
                    hits is Some,
                    match max_bytes {
                        Some(n) => n as nat,
                        None => self.max_bytes as nat,
                    },
                )
            }),
    {
        let bytes = match max_bytes {
            Some(n) => n,
            None => self.max_bytes,
        };
        match hits {
            Some(h) => retrieve(list, query, &h, true, bytes),
            None => retrieve_by_words(list, query, bytes),
        }
    }
}

/// Whether a character may stand in a slug.
pub open spec fn slug_char(c: char) -> bool {
    ('a' <= c && c <= 'z') || ('0' <= c && c <= '9') || c == '-'
}

/// Whether a text is a slug: it may name a file, and no other place.
pub open spec fn valid_slug(s: Seq<char>) -> bool {
    s.len() > 0 && (forall|i: int| 0 <= i < s.len() ==> slug_char(#[trigger] s[i])) && s[0] != '-'
        && s.last() != '-'
}

/// A slug names no other directory: it holds no separator and no dot.
pub proof fn slugs_stay_inside(s: Seq<char>)
    requires
        valid_slug(s),
    ensures
        !s.contains('/'),
        !s.contains('\\'),
        !s.contains('.'),
        !s.contains(':'),
{
}

/// Whether a text is a slug.
pub fn is_valid_slug(slug: &str) -> (r: bool)
    ensures
        r == valid_slug(slug@),
{
    let s = chars_of(slug);
    if s.len() == 0 {
        return false;
    }
    let mut i: usize = 0;
    while i < s.len()
        invariant
            i <= s@.len(),
            s@ == slug@,
            forall|j: int| 0 <= j < i ==> slug_char(#[trigger] s@[j]),
        decreases s@.len() - i,
    {
        let c = s[i];
        if !(('a' <= c && c <= 'z') || ('0' <= c && c <= '9') || c == '-') {
            assert(!slug_char(s@[i as int]));
            return false;
        }
        i += 1;
    }
    s[0] != '-' && s[s.len() - 1] != '-'
}

/// Refuses what is no slug.
pub fn validate_slug(slug: &str) -> (r: Result<(), MemoryError>)
    ensures
        match r {
            Ok(_) => valid_slug(slug@),
            Err(e) => !valid_slug(slug@) && e@ == (MemoryErrorV::BadSlug { slug: slug@ }),
        },
{
    if is_valid_slug(slug) {
        Ok(())
    } else {
        Err(MemoryError::BadSlug { slug: slug.to_owned() })
    }
}

/// Whether a character is an ASCII letter or digit.
pub open spec fn plain(c: char) -> bool {
    ('a' <= c && c <= 'z') || ('A' <= c && c <= 'Z') || ('0' <= c && c <= '9')
}

/// Goes on with a slug from place `i` of a text: letters and digits in lower
/// case, a dash for everything between them.
pub open spec fn slug_from(s: Seq<char>, i: int, slug: Seq<char>) -> Seq<char>
    decreases s.len() - i,
{
    if i < 0 || i >= s.len() || slug.len() >= SLUG_LENGTH {
        slug
    } else if plain(s[i]) {
        slug_from(s, i + 1, slug.push(text::ascii_lower(s[i])))
    } else if slug.len() > 0 && slug.last() != '-' {
        slug_from(s, i + 1, slug.push('-'))
    } else {
        slug_from(s, i + 1, slug)
    }
}

/// Takes a dash off the end.
pub open spec fn undashed(slug: Seq<char>) -> Seq<char> {
    if slug.len() > 0 && slug.last() == '-' {
        slug.drop_last()
    } else {
        slug
    }
}

/// The slug of a text.
pub open spec fn slug_of(s: Seq<char>) -> Seq<char> {
    undashed(slug_from(s, 0, Seq::empty()))
}

/// Whether a text can grow into a slug.
spec fn slug_start(slug: Seq<char>) -> bool {
    &&& forall|i: int| 0 <= i < slug.len() ==> slug_char(#[trigger] slug[i])
    &&& slug.len() > 0 ==> slug[0] != '-'
    &&& forall|i: int| 1 <= i < slug.len() && #[trigger] slug[i] == '-' ==> slug[i - 1] != '-'
    &&& slug.len() <= SLUG_LENGTH
}

proof fn slug_from_starts(s: Seq<char>, i: int, slug: Seq<char>)
    requires
        slug_start(slug),
    ensures
        slug_start(slug_from(s, i, slug)),
    decreases s.len() - i,
{
    if i < 0 || i >= s.len() || slug.len() >= SLUG_LENGTH {
    } else if plain(s[i]) {
        assert(slug_char(text::ascii_lower(s[i])) && text::ascii_lower(s[i]) != '-');
        slug_from_starts(s, i + 1, slug.push(text::ascii_lower(s[i])));
    } else if slug.len() > 0 && slug.last() != '-' {
        slug_from_starts(s, i + 1, slug.push('-'));
    } else {
        slug_from_starts(s, i + 1, slug);
    }
}

/// A derived slug is a slug, or nothing, and is not too long.
pub proof fn derived_slugs_are_valid(s: Seq<char>)
    ensures
        slug_of(s).len() == 0 || valid_slug(slug_of(s)),
        slug_of(s).len() <= SLUG_LENGTH,
{
    let slug = slug_from(s, 0, Seq::empty());
    slug_from_starts(s, 0, Seq::empty());
    if slug.len() > 0 && slug.last() == '-' {
        assert(slug[slug.len() - 1] == '-');
        assert(slug.len() > 1);
    }
}

fn is_plain(c: char) -> (r: bool)
    ensures
        r == plain(c),
{
    ('a' <= c && c <= 'z') || ('A' <= c && c <= 'Z') || ('0' <= c && c <= '9')
}

/// Derives a slug from a text, always the same from the same one.
pub fn slugify(text: &str) -> (r: String)
    ensures
        r@ == slug_of(text@),
{
    let s = chars_of(text);
    let mut slug: Vec<char> = Vec::new();
    let mut i: usize = 0;
    while i < s.len() && slug.len() < SLUG_LENGTH
        invariant
            i <= s@.len(),
            s@ == text@,
            slug_from(s@, 0, Seq::empty()) == slug_from(s@, i as int, slug@),
        decreases s@.len() - i,
    {
        if is_plain(s[i]) {
            slug.push(char_to_ascii_lower(s[i]));
        } else if slug.len() > 0 && slug[slug.len() - 1] != '-' {
            slug.push('-');
        }
        i += 1;
    }
    let n: usize = if slug.len() > 0 && slug[slug.len() - 1] == '-' {
        slug.len() - 1
    } else {
        slug.len()
    };
    let out = string_of(&slug, 0, n);
    assert(out@ =~= undashed(slug@));
    out
}

/// A payload from its parts; a body there must be.
pub open spec fn payload_from(
    name: Option<JsonV>,
    description: Option<JsonV>,
    memory_type: Option<JsonV>,
    body: Option<JsonV>,
) -> Option<MemoryPayloadV> {
    let about = match description {
        None => Some(Seq::<char>::empty()),
        Some(JsonV::Str(s)) => Some(s),
        Some(_) => None,
    };
    match (codec::opt_text_part(name), about, codec::opt_text_part(memory_type), body) {
        (Some(name), Some(description), Some(memory_type), Some(JsonV::Str(body))) => Some(
            MemoryPayloadV { name, description, memory_type, body },
        ),
        _ => None,
    }
}

/// The payload that a value is.
pub open spec fn payload_of(v: JsonV) -> Option<MemoryPayloadV> {
    payload_from(
        codec::part(v, "name"@, 0, 4),
        codec::part(v, "description"@, 1, 4),
        codec::part(v, "type"@, 2, 4),
        codec::part(v, "body"@, 3, 4),
    )
}

fn read_parts(
    name: Option<&Json>,
    description: Option<&Json>,
    memory_type: Option<&Json>,
    body: Option<&Json>,
) -> (r: Option<MemoryPayload>)
    ensures
        match r {
            Some(p) => payload_from(
                codec::opt_value(name),
                codec::opt_value(description),
                codec::opt_value(memory_type),
                codec::opt_value(body),
            ) == Some(p@),
            None => payload_from(
                codec::opt_value(name),
                codec::opt_value(description),
                codec::opt_value(memory_type),
                codec::opt_value(body),
            ) is None,
        },
{
    let about = match description {
        None => Some(or_empty(None)),
        Some(Json::Str(s)) => Some(s.clone()),
        Some(_) => None,
    };
    match (read_opt_text(name), about, read_opt_text(memory_type), body) {
        (Some(name), Some(description), Some(memory_type), Some(Json::Str(body))) => Some(
            MemoryPayload { name, description, memory_type, body: body.clone() },
        ),
        _ => None,
    }
}

impl MemoryPayloadV {
    /// The slug that a payload asks for: its name, or else one from its
    /// description, or else one from its body.
    pub open spec fn wanted(self) -> Seq<char> {
        let derived = if slug_of(self.description).len() == 0 {
            slug_of(self.body)
        } else {
            slug_of(self.description)
        };
        match self.name {
            Some(name) => if text::blank(name) {
                derived
            } else {
                name
            },
            None => derived,
        }
    }
}

impl MemoryPayload {
    /// Reads a payload.
    pub fn parse(v: &Json) -> (r: Result<Self, MemoryError>)
        ensures
            match r {
                Ok(p) => payload_of(v@) == Some(p@),
                Err(e) => payload_of(v@) is None && e@ is BadPayload,
            },
    {
        let r = read_parts(
            get_part(v, "name", 0, 4),
            get_part(v, "description", 1, 4),
            get_part(v, "type", 2, 4),
            get_part(v, "body", 3, 4),
        );
        match r {
            Some(p) => Ok(p),
            None => Err(MemoryError::BadPayload),
        }
    }

    /// The slug of a payload.
    pub fn slug(&self) -> (r: Result<String, MemoryError>)
        ensures
            match r {
                Ok(s) => s@ == self@.wanted() && valid_slug(s@),
                Err(e) => !valid_slug(self@.wanted()) && e@ == (if self@.wanted().len() == 0 {
                    MemoryErrorV::NoName
                } else {
                    MemoryErrorV::BadSlug { slug: self@.wanted() }
                }),
            },
    {
        let given = match &self.name {
            Some(name) => if is_blank(name.as_str()) {
                None
            } else {
                Some(name.clone())
            },
            None => None,
        };
        let slug = match given {
            Some(name) => name,
            None => {
                let derived = slugify(self.description.as_str());
                if derived.as_str().is_empty() {
                    slugify(self.body.as_str())
                } else {
                    derived
                }
            },
        };
        if slug.as_str().is_empty() {
            return Err(MemoryError::NoName);
        }
        match validate_slug(slug.as_str()) {
            Ok(_) => Ok(slug),
            Err(e) => Err(e),
        }
    }
}

/// The file of a memory.
pub fn memory_file(slug: &str) -> (r: String)
    ensures
        r@ == slug@ + ".md"@,
{
    let mut out = slug.to_owned();
    out.append(".md");
    out
}

/// Lets a new memory be written unless one of its name is there.
pub fn admit_store(slug: &str, exists: bool) -> (r: Result<(), MemoryError>)
    ensures
        match r {
            Ok(_) => !exists,
            Err(e) => exists && e@ == (MemoryErrorV::Exists { slug: slug@ }),
        },
{
    if exists {
        Err(MemoryError::Exists { slug: slug.to_owned() })
    } else {
        Ok(())
    }
}

/// Lets a memory be revised under its own name.
pub fn check_update(id: &str, payload: &MemoryPayload) -> (r: Result<(), MemoryError>)
    ensures
        match r {
            Ok(_) => valid_slug(id@) && (payload@.name matches Some(name) ==> text::blank(name)
                || name == id@),
            Err(e) => if !valid_slug(id@) {
                e@ == (MemoryErrorV::BadSlug { slug: id@ })
            } else {
                payload@.name matches Some(name) && !text::blank(name) && name != id@ && e@ == (
                MemoryErrorV::Renames { id: id@, name })
            },
        },
{
    match validate_slug(id) {
        Ok(_) => {},
        Err(e) => {
            return Err(e);
        },
    }
    match &payload.name {
        Some(name) => {
            if !is_blank(name.as_str()) && !same_text(name.as_str(), id) {
                return Err(MemoryError::Renames { id: id.to_owned(), name: name.clone() });
            }
        },
        None => {},
    }
    Ok(())
}

/// Lets a memory be revised if it is there.
pub fn admit_update(id: &str, exists: bool) -> (r: Result<(), MemoryError>)
    ensures
        match r {
            Ok(_) => exists,
            Err(e) => !exists && e@ == (MemoryErrorV::Missing { id: id@ }),
        },
{
    if exists {
        Ok(())
    } else {
        Err(MemoryError::Missing { id: id.to_owned() })
    }
}

} // verus!
