//! How memories are named, when they may be written, and where the head of a file
//! ends.
use crate::memory;
use crate::memory::{MemoryError, MemoryErrorV, MemoryPayload};
use crate::text;
use vstd::prelude::*;

verus! {

/// Whether a text holds nothing but ASCII letters and digits.
pub open spec fn all_plain(s: Seq<char>) -> bool {
    forall|i: int|
        0 <= i < s.len() ==> ('a' <= #[trigger] s[i] <= 'z') || ('A' <= s[i] <= 'Z') || ('0' <= s[i]
            <= '9')
}

/// Whether a text holds neither an ASCII letter nor a digit.
pub open spec fn none_plain(s: Seq<char>) -> bool {
    forall|i: int|
        0 <= i < s.len() ==> !('a' <= #[trigger] s[i] <= 'z') && !('A' <= s[i] <= 'Z') && !('0'
            <= s[i] <= '9')
}

/// The slug of two words is the words in small letters with one dash between them,
/// whatever stands between, before and behind them.
pub proof fn words_make_slugs(
    before: Seq<char>,
    a: Seq<char>,
    between: Seq<char>,
    b: Seq<char>,
    behind: Seq<char>,
)
    requires
        none_plain(before),
        all_plain(a),
        a.len() > 0,
        none_plain(between),
        between.len() > 0,
        all_plain(b),
        b.len() > 0,
        none_plain(behind),
        a.len() + 1 + b.len() < 48,
    ensures
        memory::slug_of(before + a + between + b + behind) =~= text::ascii_lower_text(a) + seq!['-']
            + text::ascii_lower_text(b),
{
    let s = before + a + between + b + behind;
    let i0 = before.len() as int;
    let i1 = i0 + a.len();
    let i2 = i1 + between.len();
    let i3 = i2 + b.len();
    let la = text::ascii_lower_text(a);
    let lb = text::ascii_lower_text(b);
    let none = Seq::<char>::empty();
    assert(s.subrange(0, i0) =~= before);
    assert(s.subrange(i0, i1) =~= a);
    assert(s.subrange(i1, i2) =~= between);
    assert(s.subrange(i2, i3) =~= b);
    assert(s.subrange(i3, s.len() as int) =~= behind);
    gap_is_passed(s, 0, i0, none);
    word_is_taken(s, i0, i1, none);
    assert(none + la =~= la);
    gap_is_passed(s, i1, i2, la);
    word_is_taken(s, i2, i3, la.push('-'));
    let whole = la.push('-') + lb;
    gap_is_passed(s, i3, s.len() as int, whole);
    let end = if i3 < s.len() {
        whole.push('-')
    } else {
        whole
    };
    assert(memory::slug_from(s, s.len() as int, end) == end);
    assert(memory::slug_from(s, 0, none) == end);
    assert(lb.last() == text::ascii_lower(b.last()));
    assert(b[b.len() - 1] != '-');
    assert(text::ascii_lower(b.last()) != '-');
    assert(whole.last() != '-');
    assert(whole.push('-').drop_last() =~= whole);
    assert(whole =~= la + seq!['-'] + lb);
}

/// A long word is cut to the length that a slug may have.
pub proof fn long_words_are_cut(s: Seq<char>)
    requires
        all_plain(s),
        s.len() > 0,
    ensures
        s.len() < 48 ==> memory::slug_of(s) =~= text::ascii_lower_text(s),
        s.len() >= 48 ==> memory::slug_of(s) =~= text::ascii_lower_text(s.take(48)),
{
    let none = Seq::<char>::empty();
    let n: int = if s.len() < 48 {
        s.len() as int
    } else {
        48
    };
    let head = s.take(n);
    assert(s.subrange(0, n) =~= head);
    word_is_taken(s, 0, n, none);
    let l = text::ascii_lower_text(head);
    assert(none + l =~= l);
    assert(memory::slug_from(s, n, l) == l);
    assert(l.last() == text::ascii_lower(head[n - 1]));
    assert(head[n - 1] == s[n - 1]);
    if s.len() < 48 {
        assert(head =~= s);
    }
}

/// Without a letter or a digit there is no slug.
pub proof fn signs_make_no_slug(s: Seq<char>)
    requires
        none_plain(s),
    ensures
        memory::slug_of(s).len() == 0,
{
    assert(s.subrange(0, s.len() as int) =~= s);
    gap_is_passed(s, 0, s.len() as int, Seq::empty());
}

proof fn word_is_taken(s: Seq<char>, i: int, j: int, slug: Seq<char>)
    requires
        0 <= i <= j <= s.len(),
        all_plain(s.subrange(i, j)),
        slug.len() + (j - i) <= 48,
    ensures
        memory::slug_from(s, i, slug) == memory::slug_from(
            s,
            j,
            slug + text::ascii_lower_text(s.subrange(i, j)),
        ),
    decreases j - i,
{
    let w = s.subrange(i, j);
    let l = text::ascii_lower_text(w);
    if i == j {
        assert(slug + l =~= slug);
    } else {
        let c = s[i];
        assert(w[0] == c);
        assert(s.subrange(i + 1, j) =~= w.drop_first());
        assert(all_plain(s.subrange(i + 1, j))) by {
            assert forall|k: int| 0 <= k < w.drop_first().len() implies ('a'
                <= #[trigger] w.drop_first()[k] <= 'z') || ('A' <= w.drop_first()[k] <= 'Z') || ('0'
                <= w.drop_first()[k] <= '9') by {
                assert(w.drop_first()[k] == w[k + 1]);
            }
        }
        let now = slug.push(text::ascii_lower(c));
        word_is_taken(s, i + 1, j, now);
        assert(now + text::ascii_lower_text(s.subrange(i + 1, j)) =~= slug + l);
        assert(memory::slug_from(s, i, slug) == memory::slug_from(s, i + 1, now));
    }
}

proof fn gap_is_passed(s: Seq<char>, i: int, j: int, slug: Seq<char>)
    requires
        0 <= i <= j <= s.len(),
        none_plain(s.subrange(i, j)),
        slug.len() < 48,
    ensures
        memory::slug_from(s, i, slug) == memory::slug_from(
            s,
            j,
            if i < j && slug.len() > 0 && slug.last() != '-' {
                slug.push('-')
            } else {
                slug
            },
        ),
    decreases j - i,
{
    let w = s.subrange(i, j);
    if i < j {
        assert(w[0] == s[i]);
        assert(!memory::plain(s[i]));
        assert(s.subrange(i + 1, j) =~= w.drop_first());
        assert(none_plain(s.subrange(i + 1, j))) by {
            assert forall|k: int| 0 <= k < w.drop_first().len() implies !('a'
                <= #[trigger] w.drop_first()[k] <= 'z') && !('A' <= w.drop_first()[k] <= 'Z') && !(
            '0' <= w.drop_first()[k] <= '9') by {
                assert(w.drop_first()[k] == w[k + 1]);
            }
        }
        if slug.len() > 0 && slug.last() != '-' {
            let now = slug.push('-');
            if now.len() < 48 {
                gap_is_passed(s, i + 1, j, now);
            } else {
                assert(memory::slug_from(s, i + 1, now) == now);
                assert(memory::slug_from(s, j, now) == now);
            }
        } else {
            gap_is_passed(s, i + 1, j, slug);
        }
    }
}

/// A slug is made of small letters, digits and dashes between them, and any such
/// text is one.
pub proof fn slugs_are_small_letters(s: Seq<char>, i: int)
    requires
        0 <= i < s.len(),
    ensures
        memory::valid_slug(s) ==> ('a' <= s[i] <= 'z') || ('0' <= s[i] <= '9') || (s[i] == '-' && 0
            < i < s.len() - 1),
        (forall|k: int|
            0 <= k < s.len() ==> ('a' <= #[trigger] s[k] <= 'z') || ('0' <= s[k] <= '9'))
            ==> memory::valid_slug(s),
{
}

/// The file of a memory is its name with an ending.
pub proof fn files_are_named_after_memories(slug: &str, r: String)
    requires
        call_ensures(memory::memory_file, (slug,), r),
    ensures
        r@.len() == slug@.len() + 3,
        slug@.is_prefix_of(r@),
        r@[slug@.len() as int] == '.',
        r@[slug@.len() + 1int] == 'm',
        r@[slug@.len() + 2int] == 'd',
{
    reveal_strlit(".md");
    assert(r@.subrange(0, slug@.len() as int) =~= slug@);
}

/// A new memory is refused where there is one of its name, and a revision where
/// there is none.
pub proof fn memories_are_written_once(
    slug: &str,
    exists: bool,
    stored: Result<(), MemoryError>,
    updated: Result<(), MemoryError>,
)
    requires
        call_ensures(memory::admit_store, (slug, exists), stored),
        call_ensures(memory::admit_update, (slug, exists), updated),
    ensures
        stored is Ok <==> !exists,
        updated is Ok <==> exists,
        stored is Ok <==> updated is Err,
        stored matches Err(e) ==> e@ == (MemoryErrorV::Exists { slug: slug@ }),
        updated matches Err(e) ==> e@ == (MemoryErrorV::Missing { id: slug@ }),
{
}

/// A revision keeps the name of its memory: it names none, or the same.
pub proof fn revisions_keep_the_name(id: &str, payload: &MemoryPayload, r: Result<(), MemoryError>)
    requires
        call_ensures(memory::check_update, (id, payload), r),
        memory::valid_slug(id@),
    ensures
        payload@.name is None ==> r is Ok,
        payload@.name == Some(id@) ==> r is Ok,
        payload@.name matches Some(n) ==> (n != id@ && !text::blank(n) ==> (r matches Err(e) && e@
            == (MemoryErrorV::Renames { id: id@, name: n }))),
{
}

/// What is refused is said with the name that it is about.
pub proof fn refusals_name_the_memory(a: Seq<char>, b: Seq<char>)
    ensures
        (MemoryErrorV::Exists { slug: a }).says() == "memory "@ + text::quoted(a)
            + " already exists; use Update to revise it"@,
        (MemoryErrorV::Missing { id: a }).says() == "no memory "@ + text::quoted(a) + " to update"@,
        (MemoryErrorV::Renames { id: a, name: b }).says() == "memory update payload renames "@
            + text::quoted(a) + " to "@ + text::quoted(b) + "; delete and re-create instead"@,
        (MemoryErrorV::BadSlug { slug: a }).says() == "memory id "@ + text::quoted(a)
            + " must be a kebab-case slug ([a-z0-9-], no leading/trailing dash)"@,
        MemoryErrorV::BadPayload.says()
            == "memory payload must be { name?, description?, type?, body }"@,
        MemoryErrorV::NoName.says()
            == "memory has no name and none could be derived from its description or body"@,
{
}

/// A file that does not open with a rule has no head: all of it is body.  The same
/// holds of one whose head nothing closes.
pub proof fn files_may_lack_a_head(raw: Seq<char>)
    ensures
        raw.len() > 0 && raw[0] != '-' ==> memory::split(raw) == (None::<Seq<char>>, raw),
        memory::split(raw).0 is None ==> memory::split(raw).1 == raw,
{
    reveal_strlit("---\n");
    reveal_strlit("---\r\n");
    assert("---\n"@[0] == '-');
    assert("---\r\n"@[0] == '-');
    if "---\n"@.is_prefix_of(raw) {
        assert(raw.subrange(0, 4)[0] == raw[0]);
    }
    if "---\r\n"@.is_prefix_of(raw) {
        assert(raw.subrange(0, 5)[0] == raw[0]);
    }
}

/// It does not matter how the line ends that opens a head.
pub proof fn openings_may_end_either_way(rest: Seq<char>)
    requires
        memory::parted(rest) is Some,
    ensures
        memory::split("---\n"@ + rest) == memory::split("---\r\n"@ + rest),
        memory::parted(rest) matches Some((head, body)) ==> memory::split("---\n"@ + rest) == (
            Some(head),
            body,
        ),
{
    reveal_strlit("---\n");
    reveal_strlit("---\r\n");
    let a = "---\n"@ + rest;
    let b = "---\r\n"@ + rest;
    assert(a.subrange(0, 4) =~= "---\n"@);
    assert(b.subrange(0, 5) =~= "---\r\n"@);
    assert(b[3] == '\r');
    assert("---\n"@[3] == '\n');
    if "---\n"@.is_prefix_of(b) {
        assert(b.subrange(0, 4)[3] == b[3]);
    }
    assert(a.skip(4) =~= rest);
    assert(b.skip(5) =~= rest);
}

/// A head ends before the rule that closes it, and the body starts behind it; both
/// together with the rule are what stood there.
pub proof fn heads_end_at_the_rule(rest: Seq<char>)
    ensures
        memory::parted(rest) matches Some((head, body)) ==> rest =~= head + "\n---\n"@ + body || rest
            =~= head + "\n---\r\n"@ + body || (rest =~= head + "\n---"@ && body.len() == 0),
{
    reveal_strlit("\n---\n");
    reveal_strlit("\n---\r\n");
    reveal_strlit("\n---");
    place_holds(rest, "\n---\n"@, 0);
    place_holds(rest, "\n---\r\n"@, 0);
    if memory::first_place(rest, "\n---\n"@, 0) is None && memory::first_place(
        rest,
        "\n---\r\n"@,
        0,
    ) is None && "\n---"@.is_suffix_of(rest) {
        let n = rest.len() - 4;
        assert(rest.subrange(n, rest.len() as int) =~= "\n---"@);
    }
}

proof fn place_holds(whole: Seq<char>, part: Seq<char>, i: int)
    requires
        0 <= i,
    ensures
        memory::first_place(whole, part, i) matches Some(k) ==> {
            &&& i <= k
            &&& k + part.len() <= whole.len()
            &&& whole =~= whole.take(k) + part + whole.skip(k + part.len())
        },
    decreases whole.len() + 1 - i,
{
    if i + part.len() <= whole.len() {
        if whole.subrange(i, i + part.len()) == part {
            let k = i;
            assert(whole =~= whole.take(k) + whole.subrange(k, k + part.len()) + whole.skip(
                k + part.len(),
            ));
        } else {
            place_holds(whole, part, i + 1);
        }
    }
}

/// A head ends at the first rule that stands in it: nothing that stands before could
/// close it.
pub proof fn heads_end_at_the_first_rule(rest: Seq<char>, i: int)
    requires
        0 <= i,
    ensures
        i + 5 <= rest.len() && rest.subrange(i, i + 5) == "\n---\n"@ ==> (memory::parted(
            rest,
        ) matches Some((head, _)) && head.len() <= i),
        i + 6 <= rest.len() && rest.subrange(i, i + 6) == "\n---\r\n"@ ==> (memory::parted(
            rest,
        ) is Some && (memory::first_place(rest, "\n---\n"@, 0) is None ==> (memory::parted(
            rest,
        ) matches Some((head, _)) && head.len() <= i))),
        "\n---"@.is_suffix_of(rest) ==> memory::parted(rest) is Some,
{
    reveal_strlit("\n---\n");
    reveal_strlit("\n---\r\n");
    place_holds(rest, "\n---\n"@, 0);
    place_holds(rest, "\n---\r\n"@, 0);
    if i + 5 <= rest.len() && rest.subrange(i, i + 5) == "\n---\n"@ {
        first_comes_first(rest, "\n---\n"@, 0, i);
    }
    if i + 6 <= rest.len() && rest.subrange(i, i + 6) == "\n---\r\n"@ {
        first_comes_first(rest, "\n---\r\n"@, 0, i);
    }
}

proof fn first_comes_first(whole: Seq<char>, part: Seq<char>, i: int, k: int)
    requires
        0 <= i <= k,
        k + part.len() <= whole.len(),
        whole.subrange(k, k + part.len()) == part,
    ensures
        memory::first_place(whole, part, i) matches Some(j) && j <= k,
    decreases k - i,
{
    if i < k && whole.subrange(i, i + part.len()) != part {
        first_comes_first(whole, part, i + 1, k);
    }
}

} // verus!
