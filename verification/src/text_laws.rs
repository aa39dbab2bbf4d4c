//! What texts become when they are cut, folded, trimmed and counted, and which
//! answers a recording gives.
use crate::effect::EffectLocationV;
use crate::json;
use crate::json::JsonV;
use crate::replay;
use crate::replay::{IrReplayTraceV, IrRetrieveCallV, IrStoreCallV};
use crate::text;
use vstd::prelude::*;

verus! {

/// White space around a text goes, and nothing else does: what is left neither
/// starts nor ends with it, and stands in the text with nothing but white space
/// before and behind it.
pub proof fn trimming_takes_the_ends(s: Seq<char>)
    ensures
        ({
            let t = text::trim(s);
            &&& t.len() > 0 ==> !text::is_space(t[0]) && !text::is_space(t.last())
            &&& exists|i: int, j: int|
                0 <= i <= j <= s.len() && t == #[trigger] s.subrange(i, j) && text::blank(
                    s.subrange(0, i),
                ) && text::blank(s.subrange(j, s.len() as int))
        }),
{
    start_goes(s);
    let a = text::trim_start(s);
    end_goes(a);
    let i = choose|i: int| 0 <= i <= s.len() && a == #[trigger] s.skip(i) && text::blank(s.take(i));
    let k = choose|k: int| 0 <= k <= a.len() && text::trim_end(a) == #[trigger] a.take(k)
        && text::blank(a.skip(k));
    assert(a.take(k) =~= s.subrange(i, i + k));
    assert(s.take(i) =~= s.subrange(0, i));
    assert(a.skip(k) =~= s.subrange(i + k, s.len() as int));
    let t = text::trim(s);
    if t.len() > 0 {
        assert(t[0] == a[0]);
    }
}

proof fn start_goes(s: Seq<char>)
    ensures
        exists|i: int|
            0 <= i <= s.len() && text::trim_start(s) == #[trigger] s.skip(i) && text::blank(s.take(i)),
        text::trim_start(s).len() > 0 ==> !text::is_space(text::trim_start(s)[0]),
    decreases s.len(),
{
    if s.len() > 0 && text::is_space(s[0]) {
        let r = s.drop_first();
        start_goes(r);
        let i = choose|i: int|
            0 <= i <= r.len() && text::trim_start(r) == #[trigger] r.skip(i) && text::blank(r.take(i));
        assert(r.skip(i) =~= s.skip(i + 1));
        assert forall|k: int| 0 <= k < s.take(i + 1).len() implies text::is_space(
            #[trigger] s.take(i + 1)[k],
        ) by {
            if k > 0 {
                assert(r.take(i)[k - 1] == s.take(i + 1)[k]);
            }
        }
    } else {
        assert(s.skip(0) =~= s);
        assert(text::blank(s.take(0)));
    }
}

proof fn end_goes(s: Seq<char>)
    ensures
        exists|k: int|
            0 <= k <= s.len() && text::trim_end(s) == #[trigger] s.take(k) && text::blank(s.skip(k)),
        text::trim_end(s).len() > 0 ==> !text::is_space(text::trim_end(s).last()),
    decreases s.len(),
{
    if s.len() > 0 && text::is_space(s.last()) {
        let r = s.drop_last();
        end_goes(r);
        let k = choose|k: int|
            0 <= k <= r.len() && text::trim_end(r) == #[trigger] r.take(k) && text::blank(r.skip(k));
        assert(r.take(k) =~= s.take(k));
        assert forall|j: int| 0 <= j < s.skip(k).len() implies text::is_space(
            #[trigger] s.skip(k)[j],
        ) by {
            if j < r.skip(k).len() {
                assert(r.skip(k)[j] == s.skip(k)[j]);
            }
        }
    } else {
        assert(s.take(s.len() as int) =~= s);
        assert(text::blank(s.skip(s.len() as int)));
    }
}

/// A text is cut to its first characters and no more than that; a short one stays
/// whole.
pub proof fn cuts_keep_the_start(s: Seq<char>, n: nat)
    ensures
        text::prefix(s, n).len() <= n,
        text::prefix(s, n).is_prefix_of(s),
        s.len() <= n ==> text::prefix(s, n) == s,
        s.len() > n ==> text::prefix(s, n).len() == n,
{
    assert(s.subrange(0, text::prefix(s, n).len() as int) =~= text::prefix(s, n));
}

/// Folding to lower case maps capitals to their small letters and leaves the rest;
/// doing it again changes nothing.
pub proof fn folding_maps_capitals(c: char, s: Seq<char>)
    ensures
        text::ascii_lower('A') == 'a',
        text::ascii_lower('Z') == 'z',
        'A' <= c <= 'Z' ==> 'a' <= text::ascii_lower(c) <= 'z' && text::ascii_lower(c) as int - c as int
            == 'a' as int - 'A' as int,
        !('A' <= c <= 'Z') ==> text::ascii_lower(c) == c,
        text::ascii_lower_text(s).len() == s.len(),
        text::ascii_lower_text(text::ascii_lower_text(s)) =~= text::ascii_lower_text(s),
{
}

/// A line break becomes a space, and everything else stays in its place.
pub proof fn one_line_keeps_places(s: Seq<char>, i: int)
    requires
        0 <= i < s.len(),
    ensures
        text::one_line(s).len() == s.len(),
        s[i] == '\n' ==> text::one_line(s)[i] == ' ',
        s[i] != '\n' ==> text::one_line(s)[i] == s[i],
{
}

/// A number is read back from its digits, and a negative one has a sign before
/// them.
pub proof fn digits_stand_for_numbers(n: nat)
    ensures
        text::number(text::decimal(n)) == n,
        text::decimal_int(n as int) == text::decimal(n),
        n > 0 ==> text::decimal_int(-(n as int)) =~= seq!['-'] + text::decimal(n),
        n < 10 ==> text::decimal(n).len() == 1,
        text::decimal(10 * n + 3).last() == '3',
    decreases n,
{
    crate::json_laws::decimals_are_digits(n);
    if n >= 10 {
        digits_stand_for_numbers(n / 10);
        assert(text::decimal(n).drop_last() =~= text::decimal(n / 10));
    } else {
        assert(text::decimal(n).drop_last() =~= Seq::empty());
        assert(text::number(Seq::empty()) == 0);
    }
}

/// Texts are ordered by their first characters, then by the rest; a text comes
/// before one that goes on behind it.
pub proof fn texts_are_ordered_by_character(c: char, d: char, s: Seq<char>, t: Seq<char>)
    ensures
        c < d ==> text::text_lt(seq![c] + s, seq![d] + t) && !text::text_lt(
            seq![d] + t,
            seq![c] + s,
        ),
        text::text_lt(seq![c] + s, seq![c] + t) == text::text_lt(s, t),
        text::text_lt(Seq::empty(), seq![c] + s),
        !text::text_lt(seq![c] + s, Seq::empty()),
{
    assert((seq![c] + s).drop_first() =~= s);
    assert((seq![c] + t).drop_first() =~= t);
}

/// Texts that are joined stand in their order, with what is put between them and
/// nothing at the ends.
pub proof fn joining_keeps_the_order(list: Seq<Seq<char>>, s: Seq<char>, between: Seq<char>)
    ensures
        text::joined(Seq::empty(), between).len() == 0,
        text::joined(seq![s], between) == s,
        list.len() > 0 ==> text::joined(list.push(s), between) == text::joined(list, between)
            + between + s,
{
    assert(list.push(s).drop_last() =~= list);
}

/// A part occurs in a text where the text can be written with it; everything
/// occurs in itself, and nothing in a shorter text.
pub proof fn parts_occur_in_texts(a: Seq<char>, part: Seq<char>, b: Seq<char>, s: Seq<char>)
    ensures
        text::occurs_in(part, a + part + b),
        text::occurs_in(s, s),
        text::occurs_in(part, s) ==> part.len() <= s.len(),
        text::occurs_in(part, s) ==> exists|x: Seq<char>, y: Seq<char>| s == #[trigger] ((x + part) + y),
{
    let w = a + part + b;
    let i = a.len() as int;
    assert(w.subrange(i, i + part.len()) =~= part);
    assert(s.subrange(0, 0 + s.len() as int) =~= s);
    if text::occurs_in(part, s) {
        let i = choose|i: int|
            0 <= i <= s.len() - part.len() && #[trigger] s.subrange(i, i + part.len()) == part;
        let x = s.take(i);
        let y = s.skip(i + part.len());
        assert(s =~= (x + part) + y);
    }
}

/// Equal values are equal all the way down: lists in each place, objects under
/// each name.
pub proof fn equal_values_are_equal_inside(a: Seq<JsonV>, b: Seq<JsonV>, i: int)
    requires
        json::same(JsonV::Array(a), JsonV::Array(b)),
        0 <= i < a.len(),
    ensures
        a.len() == b.len(),
        json::same(a[i], b[i]),
{
}

/// A recording answers only the call that it recorded: the same model, the same
/// command with the same arguments, the same query, the same write, the same
/// tool with equal arguments.  It answers with what it recorded under the effect,
/// and where a failure was recorded, with none.
pub proof fn recordings_answer_their_own_calls(
    t: IrReplayTraceV,
    l: EffectLocationV,
    s: Seq<char>,
    argv: Option<Seq<Seq<char>>>,
    q: IrRetrieveCallV,
    w: IrStoreCallV,
    a: JsonV,
)
    ensures
        ({
            let id = l.effect_id;
            &&& replay::infer_answer(t, l, s) matches Ok(r) ==> t.infer_calls.dom().contains(id)
                && t.infer_calls[id].model == s && t.infer_results.dom().contains(id) && r
                == t.infer_results[id] && !t.infer_errors.dom().contains(id)
            &&& replay::eval_answer(t, l, s, argv) matches Ok(r) ==> t.eval_calls.dom().contains(id)
                && t.eval_calls[id].command == s && t.eval_calls[id].argv == argv
                && t.eval_results.dom().contains(id) && r == t.eval_results[id]
                && !t.eval_errors.dom().contains(id)
            &&& replay::retrieve_answer(t, l, q) matches Ok(r) ==> t.retrieve_calls.dom().contains(
                id,
            ) && t.retrieve_calls[id].query == q.query && t.retrieve_calls[id].kind == q.kind
                && t.retrieve_calls[id].max_bytes == q.max_bytes
                && t.retrieve_results.dom().contains(id) && r == t.retrieve_results[id]
                && !t.retrieve_errors.dom().contains(id)
            &&& replay::store_answer(t, l, w) matches Ok(r) ==> t.store_calls.dom().contains(id)
                && t.store_calls[id].sink == w.sink && t.store_calls[id].op == w.op
                && t.store_calls[id].id == w.id && t.store_calls[id].content_hash == w.content_hash
                && t.store_results.dom().contains(id) && r == t.store_results[id]
                && !t.store_errors.dom().contains(id)
            &&& replay::tool_answer(t, l, s, a) matches Ok(r) ==> t.tool_calls.dom().contains(id)
                && t.tool_calls[id].name == s && json::same(t.tool_calls[id].arguments, a)
                && t.tool_results.dom().contains(id) && r == t.tool_results[id]
                && !t.tool_errors.dom().contains(id)
        }),
{
}

/// Blanks, tabs and line ends are white space; letters, digits and signs are not.
pub proof fn white_space_is_known(c: char)
    ensures
        text::is_space(' ') && text::is_space('\t') && text::is_space('\n') && text::is_space('\r'),
        '!' <= c <= '~' ==> !text::is_space(c),
        text::blank(Seq::empty()),
        !text::is_space(c) ==> !text::blank(seq![c]),
{
    let s = seq![c];
    assert(s[0] == c);
}

/// The first place of a character is one where it stands, with none before; where it
/// stands nowhere, the end is given.
pub proof fn first_places_are_first(s: Seq<char>, c: char, from: int)
    requires
        0 <= from <= s.len(),
    ensures
        ({
            let i = text::first_at(s, c, from);
            &&& from <= i <= s.len()
            &&& i < s.len() ==> s[i] == c
            &&& forall|k: int| from <= k < i ==> #[trigger] s[k] != c
        }),
    decreases s.len() - from,
{
    if from < s.len() && s[from] != c {
        first_places_are_first(s, c, from + 1);
    }
}

} // verus!
