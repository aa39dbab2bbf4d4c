//! An index of vectors, by memory and by what it says.
use crate::digest;
use crate::digest::digest_of;
use crate::memory;
use crate::memory::{embed_text_parts, Memory, MemoryV};
use crate::op;
use crate::op::push_string;
use crate::table;
use crate::table::{drop_entry, get_entry, keep_entries, set_entry};
use crate::text::same_text;
use vstd::prelude::*;

verus! {

/// The vector of a text, with the digest of the text.  A component is held by
/// its bits.
#[derive(Debug)]
pub struct Entry {
    pub hash: String,
    pub vector: Vec<u32>,
}

/// The model of an entry.
pub struct EntryV {
    pub hash: Seq<char>,
    pub vector: Seq<u32>,
}

impl Entry {
    pub open spec fn view(&self) -> EntryV {
        EntryV { hash: self.hash@, vector: self.vector@ }
    }
}

/// Entries by the names of memories.
pub type Vectors = Map<Seq<char>, EntryV>;

/// The vectors of memories, by name and content, as one model gives them.
/// They can be had again at any time.
#[derive(Debug)]
pub struct EmbeddingIndex {
    pub model: String,
    pub entries: Vec<(String, Entry)>,
}

/// The model of an index.
pub struct EmbeddingIndexV {
    pub model: Seq<char>,
    pub vectors: Vectors,
}

/// The entries of a list.
pub open spec fn seen(list: Seq<(String, Entry)>) -> Vectors {
    table::entries(list).map_values(|e: Entry| e@)
}

impl EmbeddingIndex {
    pub open spec fn view(&self) -> EmbeddingIndexV {
        EmbeddingIndexV { model: self.model@, vectors: seen(self.entries@) }
    }
}

/// The vector under a name, if it is that of the text with a digest.
pub open spec fn vector_of(x: Vectors, name: Seq<char>, hash: Seq<char>) -> Option<Seq<u32>> {
    if x.dom().contains(name) && x[name].hash == hash {
        Some(x[name].vector)
    } else {
        None
    }
}

/// The digest of what a memory says.
pub open spec fn hash_of(m: MemoryV) -> Seq<char> {
    digest::text_digest(memory::embed_text_of(m.name, m.description, m.body))
}

/// Whether the vector of a memory, as it reads now, is known.
pub open spec fn knows(x: Vectors, m: MemoryV) -> bool {
    vector_of(x, m.name, hash_of(m)) is Some
}

/// Whether one of some memories has a name.
pub open spec fn is_live(list: Seq<MemoryV>, name: Seq<char>) -> bool {
    exists|i: int| 0 <= i < list.len() && (#[trigger] list[i]).name == name
}

/// An index without the vectors of memories that are no more.
pub open spec fn pruned(x: Vectors, list: Seq<MemoryV>) -> Vectors {
    x.restrict(Set::new(|name: Seq<char>| is_live(list, name)))
}

/// The places, among the first `n`, of the memories whose vectors are not
/// known.
pub open spec fn missing_from(x: Vectors, list: Seq<MemoryV>, n: nat) -> Seq<int>
    decreases n,
{
    if n == 0 || n > list.len() {
        Seq::empty()
    } else if knows(x, list[n - 1]) {
        missing_from(x, list, (n - 1) as nat)
    } else {
        missing_from(x, list, (n - 1) as nat).push(n - 1)
    }
}

/// The texts whose vectors are asked for in one go: the query, then the
/// memories at some places.
pub open spec fn embed_inputs_of(query: Seq<char>, list: Seq<MemoryV>, at: Seq<int>) -> Seq<
    Seq<char>,
> {
    seq![query] + Seq::new(
        at.len(),
        |i: int| memory::embed_text_of(list[at[i]].name, list[at[i]].description, list[at[i]].body),
    )
}

/// The texts whose vectors are asked for in one go.
fn embed_inputs(query: &str, list: &Vec<Memory>, at: &Vec<usize>) -> (r: Vec<String>)
    requires
        forall|a: int| 0 <= a < at@.len() ==> #[trigger] at@[a] < list@.len(),
    ensures
        op::texts(r@) == embed_inputs_of(query@, memory::memories(list@), memory::places(at@)),
{
    let ghost goal = embed_inputs_of(query@, memory::memories(list@), memory::places(at@));
    let mut out: Vec<String> = Vec::new();
    out.push(query.to_owned());
    let mut i: usize = 0;
    assert(op::texts(out@) =~= goal.take(1));
    while i < at.len()
        invariant
            i <= at@.len(),
            forall|a: int| 0 <= a < at@.len() ==> #[trigger] at@[a] < list@.len(),
            goal == embed_inputs_of(query@, memory::memories(list@), memory::places(at@)),
            op::texts(out@) == goal.take(i + 1),
        decreases at@.len() - i,
    {
        push_string(&mut out, list[at[i]].embed_text());
        i += 1;
        assert(goal.take(i + 1) =~= goal.take(i as int).push(goal[i as int]));
    }
    assert(goal.take(i + 1) =~= goal);
    out
}

/// An index with the first `n` of some vectors, each that of the memory at its
/// place.
pub open spec fn filled(
    x: Vectors,
    list: Seq<MemoryV>,
    at: Seq<int>,
    vectors: Seq<Seq<u32>>,
    n: nat,
) -> Vectors
    decreases n,
{
    if n == 0 {
        x
    } else {
        let m = list[at[n - 1]];
        filled(x, list, at, vectors, (n - 1) as nat).insert(
            m.name,
            EntryV { hash: hash_of(m), vector: vectors[n - 1] },
        )
    }
}

/// The vectors of the first `n` memories, where they are known, by name.
pub open spec fn known_vectors(x: Vectors, list: Seq<MemoryV>, n: nat) -> Seq<
    (Seq<char>, Seq<u32>),
>
    decreases n,
{
    if n == 0 || n > list.len() {
        Seq::empty()
    } else {
        let before = known_vectors(x, list, (n - 1) as nat);
        match vector_of(x, list[n - 1].name, hash_of(list[n - 1])) {
            Some(v) => before.push((list[n - 1].name, v)),
            None => before,
        }
    }
}

/// Some named vectors.
pub open spec fn named(list: Seq<(String, Vec<u32>)>) -> Seq<(Seq<char>, Seq<u32>)> {
    Seq::new(list.len(), |i: int| (list[i].0@, list[i].1@))
}

/// Some vectors.
pub open spec fn rows(list: Seq<Vec<u32>>) -> Seq<Seq<u32>> {
    Seq::new(list.len(), |i: int| list[i]@)
}

/// What a query asks of a model.
#[derive(Debug)]
pub struct Lookup {
    /// The texts whose vectors are asked for: the query first.
    pub inputs: Vec<String>,
    /// The memories that the other texts stand for.
    pub missing: Vec<usize>,
    /// Whether the index has changed so far.
    pub dirty: bool,
}

/// What a model answered to a query.
#[derive(Debug)]
pub struct Found {
    /// The vector of the query.
    pub query: Vec<u32>,
    /// The vectors of memories, by name.
    pub near: Vec<(String, Vec<u32>)>,
}

fn hash_memory(m: &Memory) -> (r: String)
    ensures
        r@ == hash_of(m@),
{
    digest_of(m.embed_text().as_str())
}

fn copy_vector(v: &Vec<u32>) -> (r: Vec<u32>)
    ensures
        r@ == v@,
{
    let mut out: Vec<u32> = Vec::new();
    let mut i: usize = 0;
    while i < v.len()
        invariant
            i <= v@.len(),
            out@ == v@.take(i as int),
        decreases v@.len() - i,
    {
        out.push(v[i]);
        i += 1;
        assert(v@.take(i as int) =~= v@.take(i - 1).push(v@[i - 1]));
    }
    assert(v@.take(i as int) =~= v@);
    out
}

fn names_of(list: &Vec<Memory>) -> (r: Vec<String>)
    ensures
        op::texts(r@) == memory::names(list@),
{
    let mut out: Vec<String> = Vec::new();
    let mut i: usize = 0;
    assert(op::texts(out@) =~= memory::names(list@).take(0));
    while i < list.len()
        invariant
            i <= list@.len(),
            op::texts(out@) == memory::names(list@).take(i as int),
        decreases list@.len() - i,
    {
        push_string(&mut out, list[i].name.clone());
        i += 1;
        assert(memory::names(list@).take(i as int) =~= memory::names(list@).take(i - 1).push(
            memory::names(list@)[i - 1],
        ));
    }
    assert(memory::names(list@).take(i as int) =~= memory::names(list@));
    out
}

impl EmbeddingIndex {
    /// An index without vectors.
    pub fn new(model: String) -> (r: EmbeddingIndex)
        ensures
            r@.model == model@,
            r@.vectors == Map::<Seq<char>, EntryV>::empty(),
    {
        let r = EmbeddingIndex { model, entries: Vec::new() };
        assert(r@.vectors =~= Map::<Seq<char>, EntryV>::empty());
        r
    }

    /// What was kept of a model, if anything was and it is of that model.
    pub fn of_model(kept: Option<EmbeddingIndex>, model: &str) -> (r: EmbeddingIndex)
        ensures
            r@.model == model@,
            r@.vectors == match kept {
                Some(x) if x@.model == model@ => x@.vectors,
                _ => Map::<Seq<char>, EntryV>::empty(),
            },
    {
        if let Some(x) = kept {
            if same_text(x.model.as_str(), model) {
                return x;
            }
        }
        EmbeddingIndex::new(model.to_owned())
    }

    /// The vector under a name, if it is that of the text with a digest.
    pub fn vector(&self, name: &str, hash: &str) -> (r: Option<&Vec<u32>>)
        ensures
            match r {
                Some(v) => vector_of(self@.vectors, name@, hash@) == Some(v@),
                None => vector_of(self@.vectors, name@, hash@) is None,
            },
    {
        match get_entry(&self.entries, name) {
            Some(entry) => if same_text(entry.hash.as_str(), hash) {
                Some(&entry.vector)
            } else {
                None
            },
            None => None,
        }
    }

    /// Puts a vector under a name.
    pub fn insert(&mut self, name: String, hash: String, vector: Vec<u32>)
        ensures
            final(self)@.model == old(self)@.model,
            final(self)@.vectors == old(self)@.vectors.insert(
                name@,
                EntryV { hash: hash@, vector: vector@ },
            ),
    {
        let ghost before = self@.vectors;
        set_entry(&mut self.entries, name, Entry { hash, vector });
        assert(self@.vectors =~= before.insert(name@, EntryV { hash: hash@, vector: vector@ }));
    }

    /// Takes the vector of a memory out; says whether there was one.
    pub fn remove(&mut self, name: &str) -> (r: bool)
        ensures
            final(self)@.model == old(self)@.model,
            final(self)@.vectors == old(self)@.vectors.remove(name@),
            r == old(self)@.vectors.dom().contains(name@),
    {
        let ghost before = self@.vectors;
        let r = drop_entry(&mut self.entries, name);
        assert(self@.vectors =~= before.remove(name@));
        r
    }

    /// Takes out the vectors of memories that are no more; says whether there
    /// were any.
    pub fn retain_ids(&mut self, list: &Vec<Memory>) -> (r: bool)
        ensures
            final(self)@.model == old(self)@.model,
            final(self)@.vectors == pruned(old(self)@.vectors, memory::memories(list@)),
            r == (final(self)@.vectors != old(self)@.vectors),
    {
        let ghost before = self@.vectors;
        let ghost all = memory::memories(list@);
        let keys = names_of(list);
        proof {
            assert(op::texts(keys@).len() == list@.len());
            assert forall|name: Seq<char>| #[trigger] table::one_of(keys@, name) == is_live(
                all,
                name,
            ) by {
                if table::one_of(keys@, name) {
                    let i = choose|i: int| 0 <= i < keys@.len() && (#[trigger] keys@[i])@ == name;
                    assert(op::texts(keys@)[i] == keys@[i]@);
                    assert(all[i].name == memory::names(list@)[i]);
                }
                if is_live(all, name) {
                    let i = choose|i: int| 0 <= i < all.len() && (#[trigger] all[i]).name == name;
                    assert(all[i].name == memory::names(list@)[i]);
                    assert(op::texts(keys@)[i] == keys@[i]@);
                }
            }
        }
        let ghost listed = table::entries(self.entries@);
        let r = keep_entries(&mut self.entries, &keys);
        proof {
            assert(self@.vectors =~= pruned(before, all));
            if r {
                let k = choose|k: Seq<char>| #[trigger]
                    listed.dom().contains(k) && !table::one_of(keys@, k);
                assert(before.dom().contains(k));
                assert(!self@.vectors.dom().contains(k));
            } else {
                assert forall|k: Seq<char>| #[trigger] before.dom().contains(k) implies is_live(
                    all,
                    k,
                ) by {
                    assert(listed.dom().contains(k));
                }
                assert(self@.vectors =~= before);
            }
        }
        r
    }

    fn missing(&self, list: &Vec<Memory>) -> (r: Vec<usize>)
        ensures
            memory::places(r@) == missing_from(
                self@.vectors,
                memory::memories(list@),
                list@.len(),
            ),
            forall|a: int| 0 <= a < r@.len() ==> #[trigger] r@[a] < list@.len(),
    {
        let ghost all = memory::memories(list@);
        let mut out: Vec<usize> = Vec::new();
        let mut i: usize = 0;
        assert(memory::places(out@) =~= Seq::empty());
        while i < list.len()
            invariant
                i <= list@.len(),
                all == memory::memories(list@),
                memory::places(out@) == missing_from(self@.vectors, all, i as nat),
                forall|a: int| 0 <= a < out@.len() ==> #[trigger] out@[a] < list@.len(),
            decreases list@.len() - i,
        {
            assert(all[i as int] == list@[i as int]@);
            let hash = hash_memory(&list[i]);
            if self.vector(list[i].name.as_str(), hash.as_str()).is_none() {
                let ghost before = memory::places(out@);
                out.push(i);
                assert(memory::places(out@) =~= before.push(i as int));
            }
            i += 1;
        }
        out
    }

    /// Begins a query: drops the vectors of memories that are no more, and says
    /// which texts a model is to turn into vectors.  Without memories nothing
    /// is asked.
    pub fn begin(&mut self, query: &str, list: &Vec<Memory>) -> (r: Option<Lookup>)
        ensures
            final(self)@.model == old(self)@.model,
            match r {
                None => list@.len() == 0 && final(self)@ == old(self)@,
                Some(lookup) => {
                    let all = memory::memories(list@);
                    let x = pruned(old(self)@.vectors, all);
                    &&& list@.len() > 0
                    &&& final(self)@.vectors == x
                    &&& lookup.dirty == (x != old(self)@.vectors)
                    &&& memory::places(lookup.missing@) == missing_from(x, all, all.len())
                    &&& forall|a: int|
                        0 <= a < lookup.missing@.len() ==> #[trigger] lookup.missing@[a]
                            < list@.len()
                    &&& op::texts(lookup.inputs@) == embed_inputs_of(
                        query@,
                        all,
                        memory::places(lookup.missing@),
                    )
                },
            },
    {
        if list.len() == 0 {
            return None;
        }
        let dirty = self.retain_ids(list);
        let missing = self.missing(list);
        let inputs = embed_inputs(query, list, &missing);
        Some(Lookup { inputs, missing, dirty })
    }

    /// Takes the vectors that a model gave for a query and the memories at some
    /// places, in this order.  Too few or too many are none at all.
    pub fn fill(&mut self, list: &Vec<Memory>, at: &Vec<usize>, vectors: Vec<Vec<u32>>) -> (r:
        Option<Vec<u32>>)
        requires
            forall|a: int| 0 <= a < at@.len() ==> #[trigger] at@[a] < list@.len(),
        ensures
            final(self)@.model == old(self)@.model,
            match r {
                Some(query) => {
                    &&& vectors@.len() == at@.len() + 1
                    &&& query@ == vectors@[0]@
                    &&& final(self)@.vectors == filled(
                        old(self)@.vectors,
                        memory::memories(list@),
                        memory::places(at@),
                        rows(vectors@).skip(1),
                        at@.len(),
                    )
                },
                None => vectors@.len() != at@.len() + 1 && final(self)@ == old(self)@,
            },
    {
        if vectors.len() == 0 || vectors.len() - 1 != at.len() {
            return None;
        }
        let ghost x = self@.vectors;
        let ghost all = memory::memories(list@);
        let ghost given = rows(vectors@).skip(1);
        let mut i: usize = 0;
        while i < at.len()
            invariant
                i <= at@.len(),
                vectors@.len() == at@.len() + 1,
                forall|a: int| 0 <= a < at@.len() ==> #[trigger] at@[a] < list@.len(),
                all == memory::memories(list@),
                given == rows(vectors@).skip(1),
                self@.model == old(self)@.model,
                self@.vectors == filled(x, all, memory::places(at@), given, i as nat),
            decreases at@.len() - i,
        {
            let m = &list[at[i]];
            assert(all[memory::places(at@)[i as int]] == m@);
            assert(given[i as int] == vectors@[i + 1]@);
            self.insert(m.name.clone(), hash_memory(m), copy_vector(&vectors[i + 1]));
            i += 1;
        }
        Some(copy_vector(&vectors[0]))
    }

    /// The vectors of memories, where they are known, by name.
    pub fn known(&self, list: &Vec<Memory>) -> (r: Vec<(String, Vec<u32>)>)
        ensures
            named(r@) == known_vectors(self@.vectors, memory::memories(list@), list@.len()),
    {
        let ghost all = memory::memories(list@);
        let mut out: Vec<(String, Vec<u32>)> = Vec::new();
        let mut i: usize = 0;
        assert(named(out@) =~= Seq::empty());
        while i < list.len()
            invariant
                i <= list@.len(),
                all == memory::memories(list@),
                named(out@) == known_vectors(self@.vectors, all, i as nat),
            decreases list@.len() - i,
        {
            assert(all[i as int] == list@[i as int]@);
            let hash = hash_memory(&list[i]);
            if let Some(v) = self.vector(list[i].name.as_str(), hash.as_str()) {
                let ghost before = named(out@);
                let name = list[i].name.clone();
                let copy = copy_vector(v);
                out.push((name, copy));
                assert(named(out@) =~= before.push((name@, copy@)));
            }
            i += 1;
        }
        out
    }

    /// Finishes a query with what a model answered, if it did: says whether the
    /// index has changed, and which vectors can be compared.
    pub fn finish(&mut self, list: &Vec<Memory>, lookup: Lookup, vectors: Option<Vec<Vec<u32>>>)
        -> (r: (bool, Option<Found>))
        requires
            forall|a: int|
                0 <= a < lookup.missing@.len() ==> #[trigger] lookup.missing@[a] < list@.len(),
        ensures
            final(self)@.model == old(self)@.model,
            ({
                let all = memory::memories(list@);
                let at = memory::places(lookup.missing@);
                match vectors {
                    Some(v) if v@.len() == at.len() + 1 => {
                        &&& final(self)@.vectors == filled(
                            old(self)@.vectors,
                            all,
                            at,
                            rows(v@).skip(1),
                            at.len(),
                        )
                        &&& r.0 == (lookup.dirty || at.len() > 0)
                        &&& r.1 matches Some(found) && found.query@ == v@[0]@ && named(found.near@)
                            == known_vectors(final(self)@.vectors, all, all.len())
                    },
                    _ => final(self)@ == old(self)@ && r.0 == lookup.dirty && r.1 is None,
                }
            }),
    {
        let answered = match vectors {
            Some(v) => self.fill(list, &lookup.missing, v),
            None => None,
        };
        match answered {
            Some(query) => {
                let near = self.known(list);
                (lookup.dirty || lookup.missing.len() > 0, Some(Found { query, near }))
            },
            None => (lookup.dirty, None),
        }
    }

    /// The text that a model is to turn into a vector when a memory is written:
    /// none where the vector of that text is known.
    pub fn to_embed(&self, name: &str, description: &str, body: &str) -> (r: Option<String>)
        ensures
            ({
                let content = memory::embed_text_of(name@, description@, body@);
                match r {
                    Some(t) => t@ == content && vector_of(
                        self@.vectors,
                        name@,
                        digest::text_digest(content),
                    ) is None,
                    None => vector_of(
                        self@.vectors,
                        name@,
                        digest::text_digest(content),
                    ) is Some,
                }
            }),
    {
        let content = embed_text_parts(name, description, body);
        let hash = digest_of(content.as_str());
        match self.vector(name, hash.as_str()) {
            Some(_) => None,
            None => Some(content),
        }
    }

    /// Takes the vector that a model gave for the text of a memory; says
    /// whether it was one.
    pub fn embedded(&mut self, name: &str, content: &str, vectors: Vec<Vec<u32>>) -> (r: bool)
        ensures
            final(self)@.model == old(self)@.model,
            r == (vectors@.len() == 1),
            r ==> final(self)@.vectors == old(self)@.vectors.insert(
                name@,
                EntryV { hash: digest::text_digest(content@), vector: vectors@[0]@ },
            ),
            !r ==> final(self)@ == old(self)@,
    {
        if vectors.len() != 1 {
            return false;
        }
        self.insert(name.to_owned(), digest_of(content), copy_vector(&vectors[0]));
        true
    }
}

/// Whether no two memories share a name.
pub open spec fn named_apart(list: Seq<MemoryV>) -> bool {
    forall|i: int, j: int|
        0 <= i < j < list.len() ==> (#[trigger] list[i]).name != (#[trigger] list[j]).name
}

proof fn missing_is_complete(x: Vectors, list: Seq<MemoryV>, n: nat)
    requires
        n <= list.len(),
    ensures
        forall|a: int|
            0 <= a < missing_from(x, list, n).len() ==> 0 <= #[trigger] missing_from(x, list, n)[a]
                < n,
        forall|i: int|
            0 <= i < n && !knows(x, #[trigger] list[i]) ==> missing_from(x, list, n).contains(i),
    decreases n,
{
    if n > 0 {
        let before = missing_from(x, list, (n - 1) as nat);
        missing_is_complete(x, list, (n - 1) as nat);
        assert forall|i: int| 0 <= i < n && !knows(x, #[trigger] list[i]) implies missing_from(
            x,
            list,
            n,
        ).contains(i) by {
            if i == n - 1 {
                assert(missing_from(x, list, n)[before.len() as int] == i);
            } else {
                let a = choose|a: int| 0 <= a < before.len() && before[a] == i;
                assert(missing_from(x, list, n)[a] == i);
            }
        }
    }
}

proof fn nothing_is_lost(
    x: Vectors,
    list: Seq<MemoryV>,
    at: Seq<int>,
    vectors: Seq<Seq<u32>>,
    n: nat,
    i: int,
)
    requires
        named_apart(list),
        n <= at.len(),
        forall|a: int| 0 <= a < at.len() ==> 0 <= #[trigger] at[a] < list.len(),
        0 <= i < list.len(),
        knows(x, list[i]) || at.take(n as int).contains(i),
    ensures
        knows(filled(x, list, at, vectors, n), list[i]),
    decreases n,
{
    if n > 0 {
        let j = at[n - 1];
        if j != i {
            assert(list[i].name != list[j].name);
            if at.take(n as int).contains(i) {
                let a = choose|a: int| 0 <= a < n && at.take(n as int)[a] == i;
                assert(at.take(n - 1)[a] == i);
            }
            nothing_is_lost(x, list, at, vectors, (n - 1) as nat, i);
        }
    } else {
        assert(at.take(0).len() == 0);
    }
}

proof fn all_known(x: Vectors, list: Seq<MemoryV>, n: nat)
    requires
        n <= list.len(),
        forall|i: int| 0 <= i < n ==> knows(x, #[trigger] list[i]),
    ensures
        missing_from(x, list, n).len() == 0,
    decreases n,
{
    if n > 0 {
        all_known(x, list, (n - 1) as nat);
        assert(knows(x, list[n - 1]));
    }
}

/// One answered query makes every memory known: the next one asks for the
/// vector of the query alone.
pub proof fn answered_queries_leave_nothing_missing(
    x: Vectors,
    list: Seq<MemoryV>,
    vectors: Seq<Seq<u32>>,
    next: Seq<char>,
)
    requires
        named_apart(list),
        vectors.len() == missing_from(x, list, list.len()).len(),
    ensures
        ({
            let at = missing_from(x, list, list.len());
            let y = filled(x, list, at, vectors, at.len());
            &&& missing_from(y, list, list.len()).len() == 0
            &&& embed_inputs_of(next, list, missing_from(y, list, list.len())) == seq![next]
        }),
{
    let at = missing_from(x, list, list.len());
    let y = filled(x, list, at, vectors, at.len());
    missing_is_complete(x, list, list.len());
    assert(at.take(at.len() as int) =~= at);
    assert forall|i: int| 0 <= i < list.len() implies knows(y, #[trigger] list[i]) by {
        nothing_is_lost(x, list, at, vectors, at.len(), i);
    }
    all_known(y, list, list.len());
    assert(embed_inputs_of(next, list, missing_from(y, list, list.len())) =~= seq![next]);
}

/// The vector that is kept when a memory is written is that of the memory as
/// it is read back, whatever else is written under other names.
pub proof fn written_memories_are_known(
    x: Vectors,
    m: MemoryV,
    vector: Seq<u32>,
    other: Seq<char>,
    entry: EntryV,
)
    requires
        other != m.name,
    ensures
        ({
            let content = memory::embed_text_of(m.name, m.description, m.body);
            let kept = x.insert(
                m.name,
                EntryV { hash: digest::text_digest(content), vector },
            );
            &&& vector_of(kept, m.name, hash_of(m)) == Some(vector)
            &&& vector_of(kept.insert(other, entry), m.name, hash_of(m)) == Some(vector)
            &&& vector_of(kept.remove(other), m.name, hash_of(m)) == Some(vector)
        }),
{
}

/// Pruning takes no vector from a memory that is still there, and leaves none
/// of one that is not.
pub proof fn pruning_keeps_the_living(
    x: Vectors,
    list: Seq<MemoryV>,
    name: Seq<char>,
    hash: Seq<char>,
)
    ensures
        vector_of(pruned(x, list), name, hash) == if is_live(list, name) {
            vector_of(x, name, hash)
        } else {
            None
        },
        pruned(pruned(x, list), list) == pruned(x, list),
{
    assert(pruned(pruned(x, list), list) =~= pruned(x, list));
}

} // verus!
