//! Finite maps from texts to values, kept as association lists.
use crate::text::same_text;
use vstd::prelude::*;

verus! {

/// The first value that a list holds under a key.
pub open spec fn find<V>(list: Seq<(String, V)>, key: Seq<char>) -> Option<V>
    decreases list.len(),
{
    if list.len() == 0 {
        None
    } else if list[0].0@ == key {
        Some(list[0].1)
    } else {
        find(list.skip(1), key)
    }
}

/// The map that a list stands for.
pub open spec fn entries<V>(list: Seq<(String, V)>) -> Map<Seq<char>, V> {
    Map::new(|k: Seq<char>| find(list, k) is Some, |k: Seq<char>| find(list, k)->0)
}

proof fn find_skips<V>(list: Seq<(String, V)>, key: Seq<char>, n: int)
    requires
        0 <= n <= list.len(),
        forall|j: int| 0 <= j < n ==> (#[trigger] list[j]).0@ != key,
    ensures
        find(list, key) == find(list.skip(n), key),
    decreases n,
{
    if n == 0 {
        assert(list.skip(0) =~= list);
    } else {
        assert(list[0].0@ != key);
        assert forall|j: int| 0 <= j < n - 1 implies (#[trigger] list.skip(1)[j]).0@ != key by {
            assert(list[j + 1].0@ != key);
        }
        find_skips(list.skip(1), key, n - 1);
        assert(list.skip(1).skip(n - 1) =~= list.skip(n));
    }
}

proof fn find_after_update<V>(list: Seq<(String, V)>, i: int, v: V, key: Seq<char>)
    requires
        0 <= i < list.len(),
        forall|j: int| 0 <= j < i ==> (#[trigger] list[j]).0@ != list[i].0@,
    ensures
        find(list.update(i, (list[i].0, v)), key) == if key == list[i].0@ {
            Some(v)
        } else {
            find(list, key)
        },
    decreases list.len(),
{
    let after = list.update(i, (list[i].0, v));
    if i == 0 {
        assert(after.skip(1) =~= list.skip(1));
    } else {
        assert(list[0].0@ != list[i].0@);
        assert(list.skip(1)[i - 1] == list[i]);
        assert forall|j: int| 0 <= j < i - 1 implies (#[trigger] list.skip(1)[j]).0@
            != list.skip(1)[i - 1].0@ by {
            assert(list[j + 1].0@ != list[i].0@);
        }
        find_after_update(list.skip(1), i - 1, v, key);
        assert(after.skip(1) =~= list.skip(1).update(i - 1, (list[i].0, v)));
    }
}

proof fn find_after_push<V>(list: Seq<(String, V)>, entry: (String, V), key: Seq<char>)
    ensures
        find(list.push(entry), key) == match find(list, key) {
            Some(v) => Some(v),
            None => if entry.0@ == key {
                Some(entry.1)
            } else {
                None
            },
        },
    decreases list.len(),
{
    if list.len() == 0 {
        assert(find(list, key) is None);
        assert(find(list.push(entry).skip(1), key) is None);
    } else {
        find_after_push(list.skip(1), entry, key);
        assert(list.push(entry).skip(1) =~= list.skip(1).push(entry));
    }
}

/// Where a list holds a key first.
pub fn position<V>(list: &Vec<(String, V)>, key: &str) -> (r: Option<usize>)
    ensures
        match r {
            Some(i) => {
                &&& i < list@.len()
                &&& list@[i as int].0@ == key@
                &&& find(list@, key@) == Some(list@[i as int].1)
                &&& forall|j: int| 0 <= j < i ==> (#[trigger] list@[j]).0@ != key@
            },
            None => {
                &&& find(list@, key@) is None
                &&& forall|j: int| 0 <= j < list@.len() ==> (#[trigger] list@[j]).0@ != key@
            },
        },
{
    let mut i: usize = 0;
    while i < list.len()
        invariant
            i <= list@.len(),
            forall|j: int| 0 <= j < i ==> (#[trigger] list@[j]).0@ != key@,
        decreases list@.len() - i,
    {
        if same_text(list[i].0.as_str(), key) {
            proof {
                find_skips(list@, key@, i as int);
                assert(list@.skip(i as int)[0] == list@[i as int]);
            }
            return Some(i);
        }
        i += 1;
    }
    proof {
        find_skips(list@, key@, i as int);
    }
    None
}

/// The value under a key.
pub fn get_entry<'a, V>(list: &'a Vec<(String, V)>, key: &str) -> (r: Option<&'a V>)
    ensures
        match r {
            Some(v) => find(list@, key@) == Some(*v),
            None => find(list@, key@) is None,
        },
{
    match position(list, key) {
        Some(i) => Some(&list[i].1),
        None => None,
    }
}

/// Puts a value under a key, in place of the one that was there.
pub fn set_entry<V>(list: &mut Vec<(String, V)>, key: String, value: V)
    ensures
        entries(final(list)@) == entries(old(list)@).insert(key@, value),
{
    let ghost before = list@;
    match position(list, key.as_str()) {
        Some(i) => {
            list[i].1 = value;
            proof {
                assert(list@ =~= before.update(i as int, (before[i as int].0, value)));
                assert forall|k: Seq<char>| find(list@, k) == if k == key@ {
                    Some(value)
                } else {
                    #[trigger] find(before, k)
                } by {
                    find_after_update(before, i as int, value, k);
                }
            }
        },
        None => {
            let ghost entry = (key, value);
            list.push((key, value));
            proof {
                assert(list@ == before.push(entry));
                assert forall|k: Seq<char>| find(list@, k) == if k == key@ {
                    Some(value)
                } else {
                    #[trigger] find(before, k)
                } by {
                    find_after_push(before, entry, k);
                }
            }
        },
    }
    proof {
        assert forall|k: Seq<char>| #[trigger]
            entries(list@).dom().contains(k) == entries(before).insert(key@, value).dom().contains(
            k,
        ) && (entries(list@).dom().contains(k) ==> entries(list@)[k] == entries(before).insert(
            key@,
            value,
        )[k]) by {
            assert(find(before, k) == find(before, k));
        }
        assert(entries(list@) =~= entries(before).insert(key@, value));
    }
}

proof fn find_alike<V>(a: Seq<(String, V)>, b: Seq<(String, V)>, key: Seq<char>)
    requires
        a.len() == b.len(),
        forall|i: int| 0 <= i < a.len() ==> (#[trigger] a[i]).0@ == b[i].0@ && a[i].1 == b[i].1,
    ensures
        find(a, key) == find(b, key),
    decreases a.len(),
{
    if a.len() > 0 {
        assert(a[0].0@ == b[0].0@);
        assert forall|i: int| 0 <= i < a.skip(1).len() implies (#[trigger] a.skip(1)[i]).0@
            == b.skip(1)[i].0@ && a.skip(1)[i].1 == b.skip(1)[i].1 by {
            assert(a[i + 1].0@ == b[i + 1].0@);
        }
        find_alike(a.skip(1), b.skip(1), key);
    }
}

/// A copy of a list of counts.
pub fn copy_counts(list: &Vec<(String, u64)>) -> (r: Vec<(String, u64)>)
    ensures
        entries(r@) == entries(list@),
{
    let mut out: Vec<(String, u64)> = Vec::new();
    let mut i: usize = 0;
    while i < list.len()
        invariant
            i <= list@.len(),
            out@.len() == i,
            forall|j: int|
                0 <= j < i ==> (#[trigger] out@[j]).0@ == list@[j].0@ && out@[j].1 == list@[j].1,
        decreases list@.len() - i,
    {
        out.push((list[i].0.clone(), list[i].1));
        i += 1;
    }
    proof {
        assert forall|k: Seq<char>| #[trigger] find(out@, k) == find(list@, k) by {
            find_alike(out@, list@, k);
        }
        assert(entries(out@) =~= entries(list@));
    }
    out
}

proof fn find_after_remove<V>(list: Seq<(String, V)>, i: int, key: Seq<char>)
    requires
        0 <= i < list.len(),
        list[i].0@ != key,
    ensures
        find(list.remove(i), key) == find(list, key),
    decreases list.len(),
{
    if i == 0 {
        assert(list.remove(0) =~= list.skip(1));
    } else {
        assert(list.skip(1)[i - 1] == list[i]);
        find_after_remove(list.skip(1), i - 1, key);
        assert(list.remove(i).skip(1) =~= list.skip(1).remove(i - 1));
    }
}

proof fn held_is_found<V>(list: Seq<(String, V)>, i: int)
    requires
        0 <= i < list.len(),
    ensures
        find(list, list[i].0@) is Some,
    decreases list.len(),
{
    if i > 0 {
        assert(list.skip(1)[i - 1] == list[i]);
        held_is_found(list.skip(1), i - 1);
    }
}

proof fn found_is_held<V>(list: Seq<(String, V)>, key: Seq<char>) -> (i: int)
    requires
        find(list, key) is Some,
    ensures
        0 <= i < list.len(),
        list[i].0@ == key,
    decreases list.len(),
{
    if list[0].0@ == key {
        0
    } else {
        let j = found_is_held(list.skip(1), key);
        assert(list.skip(1)[j] == list[j + 1]);
        j + 1
    }
}

/// Takes a key out; says whether it was there.
pub fn drop_entry<V>(list: &mut Vec<(String, V)>, key: &str) -> (r: bool)
    ensures
        entries(final(list)@) == entries(old(list)@).remove(key@),
        r == entries(old(list)@).dom().contains(key@),
{
    let ghost before = list@;
    let mut dropped = false;
    loop
        invariant_except_break
            dropped || list@ == before,
        invariant
            dropped ==> find(before, key@) is Some,
            forall|k: Seq<char>| k != key@ ==> #[trigger] find(list@, k) == find(before, k),
        ensures
            find(list@, key@) is None,
            dropped == (find(before, key@) is Some),
        decreases list@.len(),
    {
        match position(list, key) {
            Some(i) => {
                let ghost now = list@;
                list.remove(i);
                dropped = true;
                proof {
                    assert forall|k: Seq<char>| k != key@ implies #[trigger] find(list@, k) == find(
                        before,
                        k,
                    ) by {
                        find_after_remove(now, i as int, k);
                    }
                }
            },
            None => {
                break;
            },
        }
    }
    proof {
        assert(entries(list@) =~= entries(before).remove(key@));
    }
    dropped
}

/// Whether a key is one of a list.
pub open spec fn one_of(keys: Seq<String>, key: Seq<char>) -> bool {
    exists|i: int| 0 <= i < keys.len() && (#[trigger] keys[i])@ == key
}

fn is_one_of(keys: &Vec<String>, key: &str) -> (r: bool)
    ensures
        r == one_of(keys@, key@),
{
    let mut i: usize = 0;
    while i < keys.len()
        invariant
            i <= keys@.len(),
            forall|j: int| 0 <= j < i ==> (#[trigger] keys@[j])@ != key@,
        decreases keys@.len() - i,
    {
        if same_text(keys[i].as_str(), key) {
            return true;
        }
        i += 1;
    }
    false
}

/// Keeps what stands under some keys; says whether anything else was there.
pub fn keep_entries<V>(list: &mut Vec<(String, V)>, keys: &Vec<String>) -> (r: bool)
    ensures
        entries(final(list)@) == entries(old(list)@).restrict(
            Set::new(|k: Seq<char>| one_of(keys@, k)),
        ),
        r == exists|k: Seq<char>| #[trigger]
            entries(old(list)@).dom().contains(k) && !one_of(keys@, k),
{
    let ghost before = list@;
    let mut dropped = false;
    let mut i: usize = 0;
    proof {
        assert forall|j: int| 0 <= j < list@.len() implies find(
            before,
            (#[trigger] list@[j]).0@,
        ) is Some by {
            held_is_found(before, j);
        }
    }
    while i < list.len()
        invariant
            i <= list@.len(),
            !dropped ==> list@ == before,
            dropped ==> exists|k: Seq<char>| #[trigger]
                entries(before).dom().contains(k) && !one_of(keys@, k),
            forall|j: int| 0 <= j < list@.len() ==> find(before, (#[trigger] list@[j]).0@) is Some,
            forall|j: int| 0 <= j < i ==> one_of(keys@, (#[trigger] list@[j]).0@),
            forall|k: Seq<char>| one_of(keys@, k) ==> #[trigger] find(list@, k) == find(before, k),
        decreases list@.len() - i,
    {
        if is_one_of(keys, list[i].0.as_str()) {
            i += 1;
        } else {
            let ghost now = list@;
            list.remove(i);
            dropped = true;
            proof {
                assert(entries(before).dom().contains(now[i as int].0@));
                assert forall|k: Seq<char>| one_of(keys@, k) implies #[trigger] find(list@, k)
                    == find(before, k) by {
                    find_after_remove(now, i as int, k);
                }
                assert forall|j: int| 0 <= j < list@.len() implies find(
                    before,
                    (#[trigger] list@[j]).0@,
                ) is Some by {
                    assert(list@[j] == now[if j < i { j } else { j + 1 }]);
                }
                assert forall|j: int| 0 <= j < i implies one_of(
                    keys@,
                    (#[trigger] list@[j]).0@,
                ) by {
                    assert(list@[j] == now[j]);
                }
            }
        }
    }
    proof {
        assert forall|k: Seq<char>| #[trigger] find(list@, k) is Some implies one_of(keys@, k) by {
            let j = found_is_held(list@, k);
            assert(one_of(keys@, list@[j].0@));
        }
        assert(entries(list@) =~= entries(before).restrict(
            Set::new(|k: Seq<char>| one_of(keys@, k)),
        ));
        if !dropped {
            assert forall|k: Seq<char>| #[trigger] entries(before).dom().contains(k) implies one_of(
                keys@,
                k,
            ) by {
                assert(find(list@, k) is Some);
            }
        }
    }
    dropped
}

} // verus!
