//! Reading back named parts: fields that are listed one by one, and names that
//! tell themselves apart.
use crate::json;
use crate::json::{Fields, JsonV};
use vstd::prelude::*;

verus! {

/// How long a name is, its first character, its last and the one in its middle.
pub open spec fn mark(s: Seq<char>) -> (nat, char, char, char) {
    (s.len(), s[0], s[s.len() - 1], s[s.len() as int / 2])
}

/// A list of fields with one more holds what it held before, and the new field
/// where its name was free.
pub broadcast proof fn read_after_push(f: Fields, key: Seq<char>, v: JsonV, other: Seq<char>)
    ensures
        #[trigger] json::lookup(f.push((key, v)), other) == match json::lookup(f, other) {
            Some(x) => Some(x),
            None => if other == key {
                Some(v)
            } else {
                None
            },
        },
    decreases f.len(),
{
    let g = f.push((key, v));
    if f.len() == 0 {
        assert(g.drop_first() =~= Seq::empty());
    } else {
        assert(g.drop_first() =~= f.drop_first().push((key, v)));
        read_after_push(f.drop_first(), key, v, other);
    }
}

/// Nothing is found in an empty list.
pub broadcast proof fn read_nothing(key: Seq<char>)
    ensures
        #[trigger] json::lookup(Seq::<(Seq<char>, JsonV)>::empty(), key) is None,
{
}

pub broadcast group group_naming {
    read_after_push,
    read_nothing,
}

} // verus!
