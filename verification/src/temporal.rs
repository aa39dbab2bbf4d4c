//! Context from past sessions: the recent turns of the newest checkpoint.
use crate::codec;
use crate::codec::decode_messages;
use crate::hydration;
use crate::hydration::{bytes_of, mentions_any, words_of, SourceResult, SourceResultV};
use crate::ir::SourceKind;
use crate::ir_hash::{record1, record3};
use crate::json;
use crate::json::{parse, Json, JsonV};
use crate::op;
use crate::op::{join_texts, push_string, ChatMessage, ChatMessageV};
use crate::text;
use crate::text::{decimal_of, is_blank, on_one_line, preview, trimmed};
use vstd::prelude::*;

verus! {

/// How many turns are served at most.
pub const DEFAULT_MAX_TURNS: usize = 20;

/// How many bytes are served at most.
pub const DEFAULT_MAX_BYTES: usize = 8192;

/// How much of a turn is shown.
pub const TURN_PREVIEW_CHARS: usize = 200;

/// A checkpoint, as far as it is read.
#[derive(Debug)]
pub struct CheckpointView {
    pub run_id: String,
    pub sequence: u64,
    pub messages: Vec<ChatMessage>,
}

/// The head of a checkpoint: its run, its number, and its messages as a value.
pub open spec fn head_of(v: JsonV) -> Option<(Seq<char>, u64, JsonV)> {
    match (v.field("messages"@), v.text_field("run_id"@), v.field("sequence"@)) {
        (Some(m), Some(run), Some(n)) => match n.as_u64() {
            Some(k) => Some((run, k as u64, m)),
            None => None,
        },
        _ => None,
    }
}

/// Reads the head of a checkpoint from a value.
pub fn read_head(v: &Json) -> (r: Option<(String, u64, Json)>)
    ensures
        match r {
            Some(x) => head_of(v@) == Some((x.0@, x.1, x.2@)),
            None => head_of(v@) is None,
        },
{
    match (v.get("messages"), v.get_str("run_id"), v.get("sequence")) {
        (Some(m), Some(run), Some(n)) => match n.as_u64() {
            Some(k) => Some((run.to_owned(), k, m.clone())),
            None => None,
        },
        _ => None,
    }
}

/// Whether a value is a checkpoint: it has a head, and its messages are
/// messages.
pub open spec fn is_checkpoint(v: JsonV) -> bool {
    match head_of(v) {
        Some((_, _, JsonV::Array(list))) => codec::all_messages(list),
        _ => false,
    }
}

impl CheckpointView {
    /// Whether a checkpoint is what a value stands for.
    pub open spec fn reads(&self, v: JsonV) -> bool {
        match head_of(v) {
            Some((run, n, JsonV::Array(list))) => self.run_id@ == run && self.sequence == n
                && codec::reads_as(list, op::messages(self.messages@)),
            _ => false,
        }
    }

    /// Reads a checkpoint from a value.
    pub fn read(v: &Json) -> (r: Option<Self>)
        ensures
            match r {
                Some(c) => is_checkpoint(v@) && c.reads(v@),
                None => !is_checkpoint(v@),
            },
    {
        match read_head(v) {
            Some((run_id, sequence, list)) => match decode_messages(&list) {
                Some(messages) => Some(CheckpointView { run_id, sequence, messages }),
                None => None,
            },
            None => None,
        }
    }

    /// Reads a checkpoint; what is none is passed over.
    pub fn parse(raw: &str) -> (r: Option<Self>)
        ensures
            match (r, json::parsed(raw@)) {
                (Some(c), Ok(v)) => is_checkpoint(v) && c.reads(v),
                (None, Ok(v)) => !is_checkpoint(v),
                (None, Err(_)) => true,
                (Some(_), Err(_)) => false,
            },
    {
        match parse(raw) {
            Ok(v) => CheckpointView::read(&v),
            Err(_) => None,
        }
    }
}

/// The number of the checkpoint that a text holds, if it holds one.
pub open spec fn sequence_of(raw: Seq<char>) -> Option<u64> {
    match json::parsed(raw) {
        Ok(v) => if is_checkpoint(v) {
            Some((head_of(v)->0).1)
        } else {
            None
        },
        Err(_) => None,
    }
}

/// The place, among the first `n` texts, of the newest checkpoint: the one
/// with the highest number, the last of equal ones.  Other texts are passed
/// over.
pub open spec fn newest(raws: Seq<Seq<char>>, n: nat) -> Option<int>
    decreases n,
{
    if n == 0 || n > raws.len() {
        None
    } else {
        match (newest(raws, (n - 1) as nat), sequence_of(raws[n - 1])) {
            (best, None) => best,
            (None, Some(_)) => Some(n - 1),
            (Some(i), Some(k)) => if k >= sequence_of(raws[i])->0 {
                Some(n - 1)
            } else {
                Some(i)
            },
        }
    }
}

/// The newest checkpoint has the highest number, and no later one has it too.
pub proof fn newest_is_highest(raws: Seq<Seq<char>>, n: nat)
    requires
        n <= raws.len(),
    ensures
        newest(raws, n) is Some <==> exists|j: int|
            0 <= j < n && (#[trigger] sequence_of(raws[j])) is Some,
        newest(raws, n) matches Some(i) ==> 0 <= i < n && sequence_of(raws[i]) is Some && forall|
            j: int,
        |
            0 <= j < n && (#[trigger] sequence_of(raws[j])) is Some ==> sequence_of(raws[j])->0
                <= sequence_of(raws[i])->0 && (j > i ==> sequence_of(raws[j])->0 < sequence_of(
                raws[i],
            )->0),
    decreases n,
{
    if n > 0 {
        newest_is_highest(raws, (n - 1) as nat);
        if newest(raws, n) is Some {
            assert(sequence_of(raws[newest(raws, n)->0]) is Some);
        }
    }
}

/// Whether a checkpoint is the newest of some texts.
pub open spec fn is_newest(c: CheckpointView, raws: Seq<Seq<char>>, n: nat) -> bool {
    match newest(raws, n) {
        Some(i) => json::parsed(raws[i]) matches Ok(v) && is_checkpoint(v) && c.reads(v),
        None => false,
    }
}

/// The newest checkpoint of a list of texts that is ordered by name.
pub fn latest_checkpoint(raws: &Vec<String>) -> (r: Option<CheckpointView>)
    ensures
        match r {
            Some(c) => is_newest(c, op::texts(raws@), raws@.len()),
            None => newest(op::texts(raws@), raws@.len()) is None,
        },
{
    let ghost all = op::texts(raws@);
    let mut best: Option<CheckpointView> = None;
    let mut i: usize = 0;
    while i < raws.len()
        invariant
            i <= raws@.len(),
            all == op::texts(raws@),
            match best {
                Some(c) => is_newest(c, all, i as nat),
                None => newest(all, i as nat) is None,
            },
        decreases raws@.len() - i,
    {
        assert(all[i as int] == raws@[i as int]@);
        match CheckpointView::parse(raws[i].as_str()) {
            Some(c) => {
                best = match best {
                    Some(b) => if c.sequence >= b.sequence {
                        Some(c)
                    } else {
                        Some(b)
                    },
                    None => Some(c),
                };
            },
            None => {},
        }
        i += 1;
    }
    best
}

/// The text of a message.
pub open spec fn said(m: ChatMessageV) -> Seq<char> {
    match m.content {
        Some(s) => s,
        None => Seq::empty(),
    }
}

/// Whether a turn is served: it says something and, where words are looked
/// for, one of them.
pub open spec fn served(m: ChatMessageV, words: Seq<Seq<char>>) -> bool {
    !text::blank(said(m)) && (words.len() == 0 || hydration::mentions(said(m), words))
}

/// The line that a turn is shown as: the role and a preview of what was said,
/// on one line.
pub open spec fn turn_line(m: ChatMessageV) -> Seq<char> {
    text::one_line(
        "- "@ + m.role + ": "@ + text::prefix(text::trim(said(m)), TURN_PREVIEW_CHARS as nat),
    )
}

/// The line of a turn is one line.
pub proof fn turn_lines_are_unbroken(m: ChatMessageV)
    ensures
        forall|i: int| 0 <= i < turn_line(m).len() ==> #[trigger] turn_line(m)[i] != '\n',
        text::line_breaks(turn_line(m)) == 0,
{
    text::unbroken(turn_line(m));
}

/// The lines of the first `n` messages, the newest first, as long as turns and
/// bytes are left.  The first line that does not fit ends them.
pub open spec fn picked(
    messages: Seq<ChatMessageV>,
    n: nat,
    words: Seq<Seq<char>>,
    turns: nat,
    bytes: nat,
) -> Seq<Seq<char>>
    decreases n,
{
    if n == 0 || n > messages.len() || turns == 0 {
        Seq::empty()
    } else {
        let m = messages[n - 1];
        let line = turn_line(m);
        let size = hydration::byte_len(line) + 1;
        if !served(m, words) {
            picked(messages, (n - 1) as nat, words, turns, bytes)
        } else if size > bytes {
            Seq::empty()
        } else {
            seq![line] + picked(
                messages,
                (n - 1) as nat,
                words,
                (turns - 1) as nat,
                (bytes - size) as nat,
            )
        }
    }
}

/// What some lines take up.
pub open spec fn total_bytes(lines: Seq<Seq<char>>) -> nat
    decreases lines.len(),
{
    if lines.len() == 0 {
        0
    } else {
        hydration::byte_len(lines[0]) + 1 + total_bytes(lines.drop_first())
    }
}

/// The caps are kept: at most so many turns, at most so many bytes.
pub proof fn caps_are_kept(
    messages: Seq<ChatMessageV>,
    n: nat,
    words: Seq<Seq<char>>,
    turns: nat,
    bytes: nat,
)
    ensures
        picked(messages, n, words, turns, bytes).len() <= turns,
        total_bytes(picked(messages, n, words, turns, bytes)) <= bytes,
    decreases n,
{
    if n == 0 || n > messages.len() || turns == 0 {
    } else {
        let m = messages[n - 1];
        let size = hydration::byte_len(turn_line(m)) + 1;
        if !served(m, words) {
            caps_are_kept(messages, (n - 1) as nat, words, turns, bytes);
        } else if size > bytes {
        } else {
            let rest = picked(
                messages,
                (n - 1) as nat,
                words,
                (turns - 1) as nat,
                (bytes - size) as nat,
            );
            caps_are_kept(
                messages,
                (n - 1) as nat,
                words,
                (turns - 1) as nat,
                (bytes - size) as nat,
            );
            assert((seq![turn_line(m)] + rest).drop_first() =~= rest);
        }
    }
}

/// The newest turn that is served is served first, if it fits at all.
pub proof fn newest_turn_is_kept(
    messages: Seq<ChatMessageV>,
    words: Seq<Seq<char>>,
    turns: nat,
    bytes: nat,
)
    requires
        messages.len() > 0,
        turns > 0,
        served(messages.last(), words),
        hydration::byte_len(turn_line(messages.last())) + 1 <= bytes,
    ensures
        picked(messages, messages.len(), words, turns, bytes).len() > 0,
        picked(messages, messages.len(), words, turns, bytes)[0] == turn_line(messages.last()),
{
}

/// Some lines, the first one last.
pub open spec fn turned(lines: Seq<Seq<char>>) -> Seq<Seq<char>> {
    Seq::new(lines.len(), |i: int| lines[lines.len() - 1 - i])
}

/// What is served of a checkpoint.
pub open spec fn recent_turns(
    run_id: Seq<char>,
    sequence: u64,
    messages: Seq<ChatMessageV>,
    words: Seq<Seq<char>>,
    turns: nat,
    bytes: nat,
) -> SourceResultV {
    let lines = turned(picked(messages, messages.len(), words, turns, bytes));
    SourceResultV {
        source: "temporal-checkpoints"@,
        kind: SourceKind::Temporal,
        content: if lines.len() == 0 {
            Seq::empty()
        } else {
            "### recent session turns (run "@ + run_id + ", checkpoint "@ + text::decimal(
                sequence as nat,
            ) + ")\n"@ + text::joined(lines, "\n"@)
        },
        metadata: JsonV::Object(
            seq![
                ("run_id"@, JsonV::Str(run_id)),
                ("sequence"@, JsonV::Int(sequence as int)),
                ("turns"@, JsonV::Int(lines.len() as int)),
            ],
        ),
    }
}

proof fn picked_lines_are_unbroken(
    messages: Seq<ChatMessageV>,
    n: nat,
    words: Seq<Seq<char>>,
    turns: nat,
    bytes: nat,
    i: int,
)
    requires
        0 <= i < picked(messages, n, words, turns, bytes).len(),
    ensures
        text::line_breaks(picked(messages, n, words, turns, bytes)[i]) == 0,
    decreases n,
{
    let m = messages[n - 1];
    let size = hydration::byte_len(turn_line(m)) + 1;
    if !served(m, words) {
        picked_lines_are_unbroken(messages, (n - 1) as nat, words, turns, bytes, i);
    } else if i == 0 {
        turn_lines_are_unbroken(m);
    } else {
        picked_lines_are_unbroken(
            messages,
            (n - 1) as nat,
            words,
            (turns - 1) as nat,
            (bytes - size) as nat,
            i - 1,
        );
    }
}

/// Every turn takes one line, under one line of heading: what is served holds
/// one line break for each turn, and those of the run's name if it has any.
pub proof fn turns_take_one_line_each(
    run_id: Seq<char>,
    sequence: u64,
    messages: Seq<ChatMessageV>,
    words: Seq<Seq<char>>,
    turns: nat,
    bytes: nat,
)
    ensures
        ({
            let n = picked(messages, messages.len(), words, turns, bytes).len();
            let r = recent_turns(run_id, sequence, messages, words, turns, bytes);
            &&& n == 0 ==> r.content.len() == 0
            &&& n > 0 ==> text::line_breaks(r.content) == text::line_breaks(run_id) + n
            &&& json::lookup(r.metadata->Object_0, "turns"@) == Some(JsonV::Int(n as int))
        }),
{
    reveal_strlit("run_id");
    reveal_strlit("sequence");
    reveal_strlit("turns");
    let lines = turned(picked(messages, messages.len(), words, turns, bytes));
    let r = recent_turns(run_id, sequence, messages, words, turns, bytes);
    let fields = r.metadata->Object_0;
    assert("run_id"@.len() != "turns"@.len());
    assert("sequence"@.len() != "turns"@.len());
    assert(json::lookup(fields, "turns"@) == Some(JsonV::Int(lines.len() as int))) by {
        reveal_with_fuel(json::lookup, 4);
    }
    if lines.len() > 0 {
        assert forall|i: int| 0 <= i < lines.len() implies text::line_breaks(#[trigger] lines[i])
            == 0 by {
            picked_lines_are_unbroken(
                messages,
                messages.len(),
                words,
                turns,
                bytes,
                lines.len() - 1 - i,
            );
        }
        text::joined_lines(lines);
        text::decimals_are_unbroken(sequence as nat);
        let a = "### recent session turns (run "@;
        let b = ", checkpoint "@;
        let c = ")\n"@;
        let d = text::decimal(sequence as nat);
        let e = text::joined(lines, "\n"@);
        reveal_strlit("### recent session turns (run ");
        reveal_strlit(", checkpoint ");
        reveal_strlit(")\n");
        text::unbroken(a);
        text::unbroken(b);
        text::unbroken(c.drop_last());
        text::line_breaks_add_up(a, run_id);
        text::line_breaks_add_up(a + run_id, b);
        text::line_breaks_add_up(a + run_id + b, d);
        text::line_breaks_add_up(a + run_id + b + d, c);
        text::line_breaks_add_up(a + run_id + b + d + c, e);
    }
}

fn render_turn(m: &ChatMessage) -> (r: String)
    ensures
        r@ == turn_line(m@),
{
    let mut out = "- ".to_owned();
    out.append(m.role.as_str());
    out.append(": ");
    match &m.content {
        Some(s) => {
            out.append(preview(trimmed(s.as_str()).as_str(), TURN_PREVIEW_CHARS).as_str());
        },
        None => {
            assert(text::trim(Seq::<char>::empty()) =~= Seq::empty());
            out.append("");
            proof {
                reveal_strlit("");
            }
            assert(""@ =~= Seq::empty());
        },
    }
    on_one_line(out.as_str())
}

fn is_served(m: &ChatMessage, words: &Vec<String>) -> (r: bool)
    ensures
        r == served(m@, op::texts(words@)),
{
    match &m.content {
        Some(s) => !is_blank(s.as_str()) && (words.len() == 0 || mentions_any(s.as_str(), words)),
        None => false,
    }
}

/// The lines of the recent turns, the newest first.
fn pick_turns(
    messages: &Vec<ChatMessage>,
    words: &Vec<String>,
    max_turns: usize,
    max_bytes: usize,
) -> (r: Vec<String>)
    ensures
        op::texts(r@) == picked(
            op::messages(messages@),
            messages@.len(),
            op::texts(words@),
            max_turns as nat,
            max_bytes as nat,
        ),
{
    let ghost all = op::messages(messages@);
    let ghost ws = op::texts(words@);
    let ghost goal = picked(all, all.len(), ws, max_turns as nat, max_bytes as nat);
    let mut out: Vec<String> = Vec::new();
    let mut n: usize = messages.len();
    let mut turns: usize = max_turns;
    let mut bytes: usize = max_bytes;
    assert(op::texts(out@) + goal =~= goal);
    while n > 0 && turns > 0
        invariant
            n <= messages@.len(),
            all == op::messages(messages@),
            ws == op::texts(words@),
            goal == picked(all, all.len(), ws, max_turns as nat, max_bytes as nat),
            goal == op::texts(out@) + picked(all, n as nat, ws, turns as nat, bytes as nat),
        decreases n,
    {
        let m = &messages[n - 1];
        assert(all[n - 1] == m@);
        if is_served(m, words) {
            let line = render_turn(m);
            let size = bytes_of(line.as_str());
            if bytes == 0 || size > bytes - 1 {
                assert(op::texts(out@) + Seq::<Seq<char>>::empty() =~= op::texts(out@));
                return out;
            }
            let ghost before = op::texts(out@);
            let ghost rest = picked(
                all,
                (n - 1) as nat,
                ws,
                (turns - 1) as nat,
                (bytes - size - 1) as nat,
            );
            push_string(&mut out, line);
            assert(before + (seq![line@] + rest) =~= op::texts(out@) + rest);
            bytes = bytes - size - 1;
            turns -= 1;
        }
        n -= 1;
    }
    assert(op::texts(out@) + Seq::<Seq<char>>::empty() =~= op::texts(out@));
    out
}

fn turn_around(lines: &Vec<String>) -> (r: Vec<String>)
    ensures
        op::texts(r@) == turned(op::texts(lines@)),
{
    let ghost goal = turned(op::texts(lines@));
    let mut out: Vec<String> = Vec::new();
    let mut i: usize = lines.len();
    assert(op::texts(out@) =~= goal.take(0));
    while i > 0
        invariant
            i <= lines@.len(),
            goal == turned(op::texts(lines@)),
            op::texts(out@) == goal.take(lines@.len() - i),
        decreases i,
    {
        i -= 1;
        push_string(&mut out, lines[i].clone());
        assert(goal.take(lines@.len() - i) =~= goal.take(lines@.len() - i - 1).push(
            goal[lines@.len() - i - 1],
        ));
    }
    assert(goal.take(lines@.len() as int) =~= goal);
    out
}

/// Serves the recent turns of a checkpoint; with words, only the turns that
/// mention one.
pub fn serve_turns(
    checkpoint: &CheckpointView,
    words: &Vec<String>,
    max_turns: usize,
    max_bytes: usize,
) -> (r: SourceResult)
    ensures
        r@ == recent_turns(
            checkpoint.run_id@,
            checkpoint.sequence,
            op::messages(checkpoint.messages@),
            op::texts(words@),
            max_turns as nat,
            max_bytes as nat,
        ),
{
    let lines = turn_around(&pick_turns(&checkpoint.messages, words, max_turns, max_bytes));
    let ghost all = op::texts(lines@);
    assert(all.take(all.len() as int) =~= all);
    let content = if lines.len() == 0 {
        let empty = String::new();
        assert(empty@ =~= Seq::empty());
        empty
    } else {
        let mut out = "### recent session turns (run ".to_owned();
        out.append(checkpoint.run_id.as_str());
        out.append(", checkpoint ");
        out.append(decimal_of(checkpoint.sequence as u128).as_str());
        out.append(")\n");
        out.append(join_texts(&lines, lines.len(), "\n").as_str());
        out
    };
    let metadata = record3(
        "run_id",
        Json::Str(checkpoint.run_id.clone()),
        "sequence",
        Json::Int(checkpoint.sequence as i128),
        "turns",
        Json::Int(lines.len() as i128),
    );
    SourceResult {
        source: "temporal-checkpoints".to_owned(),
        kind: SourceKind::Temporal,
        content,
        metadata,
    }
}

/// What is served where there is no checkpoint.
pub open spec fn no_turns() -> SourceResultV {
    SourceResultV {
        source: "temporal-checkpoints"@,
        kind: SourceKind::Temporal,
        content: Seq::empty(),
        metadata: JsonV::Object(seq![("turns"@, JsonV::Int(0))]),
    }
}

/// What is served where there is no checkpoint.
pub fn serve_nothing() -> (r: SourceResult)
    ensures
        r@ == no_turns(),
{
    let content = String::new();
    assert(content@ =~= Seq::empty());
    SourceResult {
        source: "temporal-checkpoints".to_owned(),
        kind: SourceKind::Temporal,
        content,
        metadata: record1("turns", Json::Int(0)),
    }
}

/// The turns of past sessions, from the checkpoints in a directory.
#[derive(Debug)]
pub struct TemporalSource {
    pub root: String,
    pub max_turns: usize,
    pub max_bytes: usize,
}

/// Whether a result is the recent turns of a checkpoint, as a value holds it.
pub open spec fn serves(
    r: SourceResultV,
    v: JsonV,
    words: Seq<Seq<char>>,
    max_turns: nat,
    max_bytes: nat,
) -> bool {
    match head_of(v) {
        Some((run, n, JsonV::Array(list))) => exists|m: Seq<ChatMessageV>| #[trigger]
            codec::reads_as(list, m) && r == recent_turns(run, n, m, words, max_turns, max_bytes),
        _ => false,
    }
}

impl TemporalSource {
    /// A source over a directory, with the usual limits.
    pub fn new(root: String) -> (r: TemporalSource)
        ensures
            r.root@ == root@,
            r.max_turns == DEFAULT_MAX_TURNS,
            r.max_bytes == DEFAULT_MAX_BYTES,
    {
        TemporalSource { root, max_turns: DEFAULT_MAX_TURNS, max_bytes: DEFAULT_MAX_BYTES }
    }

    /// Serves the recent turns of the newest checkpoint among the files of the
    /// directory, which are given in the order of their names: with a query
    /// only the turns that mention a word of it, within the bytes that are
    /// asked for or the usual ones.
    pub fn retrieve(
        &self,
        raws: &Vec<String>,
        query: Option<&str>,
        max_bytes: Option<usize>,
    ) -> (r: SourceResult)
        ensures
            match newest(op::texts(raws@), raws@.len()) {
                None => r@ == no_turns(),
                Some(i) => json::parsed(op::texts(raws@)[i]) matches Ok(v) && serves(
                    r@,
                    v,
                    match query {
                        Some(q) => hydration::query_words(q@),
                        None => hydration::query_words(""@),
                    },
                    self.max_turns as nat,
                    match max_bytes {
                        Some(n) => n as nat,
                        None => self.max_bytes as nat,
                    },
                ),
            },
    {
        let checkpoint = match latest_checkpoint(raws) {
            Some(c) => c,
            None => {
                return serve_nothing();
            },
        };
        let words = match query {
            Some(q) => words_of(q),
            None => words_of(""),
        };
        let bytes = match max_bytes {
            Some(n) => n,
            None => self.max_bytes,
        };
        serve_turns(&checkpoint, &words, self.max_turns, bytes)
    }
}

} // verus!
