//! An incremental decoder of server-sent events.
//!
//! Chunks of a response body are fed as they arrive; an event comes back as
//! soon as its blank line is there, however the body was cut.
use crate::op;
use crate::op::{copy_opt, join_texts, push_string};
use crate::text;
use crate::text::{chars_of, same_text, string_of};
use vstd::prelude::*;

verus! {

/// One event: its name, if it has one, and its data.
#[derive(Debug)]
pub struct SseEvent {
    pub event: Option<String>,
    pub data: String,
}

/// The model of an event.
pub struct SseEventV {
    pub event: Option<Seq<char>>,
    pub data: Seq<char>,
}

impl SseEvent {
    pub open spec fn view(&self) -> SseEventV {
        SseEventV { event: op::opt_text(self.event), data: self.data@ }
    }
}

/// The models of a list of events.
pub open spec fn events(list: Seq<SseEvent>) -> Seq<SseEventV> {
    Seq::new(list.len(), |i: int| list[i]@)
}

/// What has arrived and is not an event yet: the bytes of the line at hand,
/// and the fields of the event at hand.
#[derive(Debug)]
pub struct SseDecoder {
    buf: Vec<u8>,
    event: Option<String>,
    data: Vec<String>,
}

/// The model of a decoder.
pub struct SseDecoderV {
    pub buf: Seq<u8>,
    pub event: Option<Seq<char>>,
    pub data: Seq<Seq<char>>,
}

/// The text of some bytes, where what is no UTF-8 is replaced.
pub uninterp spec fn lossy(bytes: Seq<u8>) -> Seq<char>;

/// Calls `String::from_utf8_lossy`.  The text depends on the bytes alone, and
/// bytes that are UTF-8 are decoded as they stand.
#[verifier::external_body]
fn from_utf8_lossy(bytes: &Vec<u8>) -> (r: String)
    ensures
        r@ == lossy(bytes@),
        vstd::utf8::valid_utf8(bytes@) ==> r@ == vstd::utf8::decode_utf8(bytes@),
{
    String::from_utf8_lossy(bytes).into_owned()
}

/// A text without the line ends at its end.
pub open spec fn without_end(s: Seq<char>) -> Seq<char>
    decreases s.len(),
{
    if s.len() > 0 && (s.last() == '\n' || s.last() == '\r') {
        without_end(s.drop_last())
    } else {
        s
    }
}

/// The name of the field that a line sets.
pub open spec fn field_of(line: Seq<char>) -> Seq<char> {
    line.take(text::first_at(line, ':', 0))
}

/// The value that a line sets its field to: what follows the colon, without
/// one space.
pub open spec fn value_of(line: Seq<char>) -> Seq<char> {
    let c = text::first_at(line, ':', 0);
    if c >= line.len() {
        Seq::empty()
    } else if c + 1 < line.len() && line[c + 1] == ' ' {
        line.skip(c + 2)
    } else {
        line.skip(c + 1)
    }
}

/// A decoder after a line, and the event that the line completed.
pub open spec fn after_line(d: SseDecoderV, line: Seq<char>) -> (SseDecoderV, Seq<SseEventV>) {
    let rest = SseDecoderV { buf: Seq::empty(), ..d };
    if line.len() == 0 {
        if d.event is None && d.data.len() == 0 {
            (rest, Seq::empty())
        } else {
            (
                SseDecoderV { buf: Seq::empty(), event: None, data: Seq::empty() },
                seq![SseEventV { event: d.event, data: text::joined(d.data, "\n"@) }],
            )
        }
    } else if line[0] == ':' {
        (rest, Seq::empty())
    } else if field_of(line) == "event"@ {
        (SseDecoderV { event: Some(value_of(line)), ..rest }, Seq::empty())
    } else if field_of(line) == "data"@ {
        (SseDecoderV { data: d.data.push(value_of(line)), ..rest }, Seq::empty())
    } else {
        (rest, Seq::empty())
    }
}

/// A decoder after one more byte, and the event that the byte completed.
pub open spec fn after_byte(d: SseDecoderV, b: u8) -> (SseDecoderV, Seq<SseEventV>) {
    let buf = d.buf.push(b);
    if b == 10 {
        after_line(d, without_end(lossy(buf)))
    } else {
        (SseDecoderV { buf, ..d }, Seq::empty())
    }
}

/// A decoder after some bytes, and the events that they completed.
pub open spec fn after_bytes(d: SseDecoderV, chunk: Seq<u8>) -> (SseDecoderV, Seq<SseEventV>)
    decreases chunk.len(),
{
    if chunk.len() == 0 {
        (d, Seq::empty())
    } else {
        let before = after_bytes(d, chunk.drop_last());
        let last = after_byte(before.0, chunk.last());
        (last.0, before.1 + last.1)
    }
}

/// Whether every line that some bytes complete is UTF-8.
pub open spec fn reads_well(d: SseDecoderV, chunk: Seq<u8>) -> bool
    decreases chunk.len(),
{
    chunk.len() == 0 || {
        &&& reads_well(d, chunk.drop_last())
        &&& chunk.last() == 10 ==> vstd::utf8::valid_utf8(
            after_bytes(d, chunk.drop_last()).0.buf.push(10),
        )
    }
}

/// A decoder after some bytes whose lines are decoded as they stand, and the
/// events that they completed.
pub open spec fn decoded_bytes(d: SseDecoderV, chunk: Seq<u8>) -> (SseDecoderV, Seq<SseEventV>)
    decreases chunk.len(),
{
    if chunk.len() == 0 {
        (d, Seq::empty())
    } else {
        let before = decoded_bytes(d, chunk.drop_last());
        let buf = before.0.buf.push(chunk.last());
        if chunk.last() == 10 {
            let last = after_line(before.0, without_end(vstd::utf8::decode_utf8(buf)));
            (last.0, before.1 + last.1)
        } else {
            (SseDecoderV { buf, ..before.0 }, before.1)
        }
    }
}

/// Drops line ends at the end of a text.
fn trim_line(s: &str) -> (r: Vec<char>)
    ensures
        r@ == without_end(s@),
{
    let mut chars = chars_of(s);
    while chars.len() > 0 && (chars[chars.len() - 1] == '\n' || chars[chars.len() - 1] == '\r')
        invariant
            without_end(chars@) == without_end(s@),
        decreases chars@.len(),
    {
        let ghost before = chars@;
        chars.pop();
        assert(chars@ =~= before.drop_last());
    }
    chars
}

impl SseDecoder {
    pub closed spec fn view(&self) -> SseDecoderV {
        SseDecoderV {
            buf: self.buf@,
            event: op::opt_text(self.event),
            data: op::texts(self.data@),
        }
    }

    /// A decoder that nothing was fed to.
    pub fn new() -> (r: SseDecoder)
        ensures
            r@ == (SseDecoderV { buf: Seq::empty(), event: None, data: Seq::empty() }),
    {
        let r = SseDecoder { buf: Vec::new(), event: None, data: Vec::new() };
        assert(r@.buf =~= Seq::empty());
        assert(r@.data =~= Seq::empty());
        r
    }

    /// Takes a line without its end, and gives the event that it completed.
    /// What was fed of another line is dropped.
    pub fn accept_line(&mut self, text: &str) -> (r: Option<SseEvent>)
        ensures
            ({
                let goal = after_line(old(self)@, text@);
                &&& final(self)@ == goal.0
                &&& match r {
                    Some(e) => goal.1 == seq![e@],
                    None => goal.1 == Seq::<SseEventV>::empty(),
                }
            }),
    {
        let line = chars_of(text);
        self.buf = Vec::new();
        assert(self.buf@ =~= Seq::empty());
        if line.len() == 0 {
            if self.event.is_none() && self.data.len() == 0 {
                return None;
            }
            let ghost all = op::texts(self.data@);
            assert(all.take(all.len() as int) =~= all);
            let data = join_texts(&self.data, self.data.len(), "\n");
            let event = copy_opt(&self.event);
            self.event = None;
            self.data = Vec::new();
            assert(op::texts(self.data@) =~= Seq::empty());
            return Some(SseEvent { event, data });
        }
        if line[0] == ':' {
            return None;
        }
        let mut colon: usize = 0;
        while colon < line.len() && line[colon] != ':'
            invariant
                colon <= line@.len(),
                text::first_at(line@, ':', 0) == text::first_at(line@, ':', colon as int),
            decreases line@.len() - colon,
        {
            colon += 1;
        }
        let field = string_of(&line, 0, colon);
        assert(line@.subrange(0, colon as int) =~= field_of(line@));
        let start: usize = if colon >= line.len() {
            line.len()
        } else if colon + 1 < line.len() && line[colon + 1] == ' ' {
            colon + 2
        } else {
            colon + 1
        };
        let value = string_of(&line, start, line.len());
        assert(line@.subrange(start as int, line@.len() as int) =~= value_of(line@));
        if same_text(field.as_str(), "event") {
            self.event = Some(value);
        } else if same_text(field.as_str(), "data") {
            push_string(&mut self.data, value);
        }
        None
    }

    /// Takes the line at hand, and gives the event that it completed.
    fn take_line(&mut self) -> (r: Option<SseEvent>)
        ensures
            ({
                let goal = after_line(old(self)@, without_end(lossy(old(self)@.buf)));
                &&& final(self)@ == goal.0
                &&& match r {
                    Some(e) => goal.1 == seq![e@],
                    None => goal.1 == Seq::<SseEventV>::empty(),
                }
            }),
            vstd::utf8::valid_utf8(old(self)@.buf) ==> lossy(old(self)@.buf)
                == vstd::utf8::decode_utf8(old(self)@.buf),
    {
        let line = trim_line(from_utf8_lossy(&self.buf).as_str());
        let text = string_of(&line, 0, line.len());
        assert(text@ =~= line@);
        self.accept_line(text.as_str())
    }

    /// Takes a chunk of the body, and gives every event that it completed.
    pub fn feed(&mut self, chunk: &[u8]) -> (r: Vec<SseEvent>)
        ensures
            ({
                let goal = after_bytes(old(self)@, chunk@);
                &&& final(self)@ == goal.0
                &&& events(r@) == goal.1
            }),
            reads_well(old(self)@, chunk@) ==> after_bytes(old(self)@, chunk@) == decoded_bytes(
                old(self)@,
                chunk@,
            ),
    {
        let ghost start = self@;
        let mut out: Vec<SseEvent> = Vec::new();
        let mut i: usize = 0;
        assert(events(out@) =~= Seq::empty());
        while i < chunk.len()
            invariant
                i <= chunk@.len(),
                self@ == after_bytes(start, chunk@.take(i as int)).0,
                events(out@) == after_bytes(start, chunk@.take(i as int)).1,
                reads_well(start, chunk@.take(i as int)) ==> after_bytes(
                    start,
                    chunk@.take(i as int),
                ) == decoded_bytes(start, chunk@.take(i as int)),
            decreases chunk@.len() - i,
        {
            let ghost now = self@;
            let b = chunk[i];
            assert(chunk@.take(i + 1).drop_last() =~= chunk@.take(i as int));
            self.buf.push(b);
            let ghost done = events(out@);
            if b == 10 {
                assert(after_line(self@, without_end(lossy(self@.buf))) == after_byte(now, b));
                match self.take_line() {
                    Some(e) => {
                        let ghost before = out@;
                        out.push(e);
                        assert(events(out@) =~= events(before) + seq![e@]);
                    },
                    None => {
                        assert(done + Seq::<SseEventV>::empty() =~= done);
                    },
                }
            } else {
                assert(done + Seq::<SseEventV>::empty() =~= done);
            }
            i += 1;
        }
        assert(chunk@.take(i as int) =~= chunk@);
        out
    }
}

/// How a body is cut does not matter: fed in two chunks it gives the same
/// events, and leaves the same decoder, as fed in one.
pub proof fn chunks_do_not_matter(d: SseDecoderV, a: Seq<u8>, b: Seq<u8>)
    ensures
        ({
            let first = after_bytes(d, a);
            let second = after_bytes(first.0, b);
            after_bytes(d, a + b) == (second.0, first.1 + second.1)
        }),
    decreases b.len(),
{
    let first = after_bytes(d, a);
    if b.len() == 0 {
        assert(a + b =~= a);
        assert(first.1 + Seq::<SseEventV>::empty() =~= first.1);
    } else {
        chunks_do_not_matter(d, a, b.drop_last());
        assert((a + b).drop_last() =~= a + b.drop_last());
        assert((a + b).last() == b.last());
        let second = after_bytes(first.0, b.drop_last());
        let last = after_byte(second.0, b.last());
        assert((first.1 + second.1) + last.1 =~= first.1 + (second.1 + last.1));
    }
}

/// A comment and a blank line without an event before it give nothing.
pub proof fn keepalives_are_ignored(d: SseDecoderV, comment: Seq<char>)
    ensures
        after_line(d, seq![':'] + comment).1 == Seq::<SseEventV>::empty(),
        after_line(d, seq![':'] + comment).0 == (SseDecoderV { buf: Seq::empty(), ..d }),
        d.event is None && d.data.len() == 0 ==> after_line(d, Seq::empty()).1 == Seq::<
            SseEventV,
        >::empty(),
{
    assert((seq![':'] + comment)[0] == ':');
}

} // verus!
