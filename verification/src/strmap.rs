//! A small map from strings to strings, kept as a list of entries in which the
//! latest entry for a key is the one that counts.

use vstd::prelude::*;
use crate::text::str_eq;

verus! {

/// The map that a list of entries stands for: each entry overrides the earlier
/// ones with the same key.
pub open spec fn entries_to_map(entries: Seq<(Seq<char>, Seq<char>)>) -> Map<Seq<char>, Seq<char>>
    decreases entries.len(),
{
    if entries.len() == 0 {
        Map::empty()
    } else {
        entries_to_map(entries.drop_last()).insert(entries.last().0, entries.last().1)
    }
}

/// The entries of a vector of string pairs, as character sequences.
pub open spec fn pairs_view(pairs: Seq<(String, String)>) -> Seq<(Seq<char>, Seq<char>)> {
    pairs.map_values(|p: (String, String)| (p.0@, p.1@))
}

/// A map from strings to strings.
#[derive(Debug, Clone)]
pub struct StringMap {
    entries: Vec<(String, String)>,
}

impl View for StringMap {
    type V = Map<Seq<char>, Seq<char>>;

    closed spec fn view(&self) -> Map<Seq<char>, Seq<char>> {
        entries_to_map(pairs_view(self.entries@))
    }
}

impl StringMap {
    /// The empty map.
    pub fn new() -> (m: StringMap)
        ensures
            m@ == Map::<Seq<char>, Seq<char>>::empty(),
    {
        StringMap { entries: Vec::new() }
    }

    /// Binds `key` to `value`, replacing what `key` was bound to before.
    pub fn insert(&mut self, key: String, value: String)
        ensures
            final(self)@ == old(self)@.insert(key@, value@),
    {
        proof {
            let before = pairs_view(self.entries@);
            let after = pairs_view(self.entries@.push((key, value)));
            assert(after.drop_last() =~= before);
        }
        self.entries.push((key, value));
    }

    /// The value that `key` is bound to, if any.
    pub fn get(&self, key: &str) -> (r: Option<&String>)
        ensures
            match r {
                Some(value) => self@.contains_key(key@) && self@[key@] == value@,
                None => !self@.contains_key(key@),
            },
    {
        let mut i: usize = self.entries.len();
        proof {
            assert(pairs_view(self.entries@).take(i as int) =~= pairs_view(self.entries@));
        }
        while i > 0
            invariant
                i <= self.entries.len(),
                self@.contains_key(key@) == entries_to_map(
                    pairs_view(self.entries@).take(i as int),
                ).contains_key(key@),
                self@.contains_key(key@) ==> self@[key@] == entries_to_map(
                    pairs_view(self.entries@).take(i as int),
                )[key@],
            decreases i,
        {
            proof {
                let prefix = pairs_view(self.entries@).take(i as int);
                assert(prefix.drop_last() =~= pairs_view(self.entries@).take(i - 1));
                assert(prefix.last() == (self.entries@[i - 1].0@, self.entries@[i - 1].1@));
            }
            i -= 1;
            if str_eq(self.entries[i].0.as_str(), key) {
                return Some(&self.entries[i].1);
            }
        }
        None
    }

    /// Whether `key` is bound.
    pub fn contains_key(&self, key: &str) -> (r: bool)
        ensures
            r == self@.contains_key(key@),
    {
        self.get(key).is_some()
    }
}

/// A key is bound exactly when some entry has it.
pub proof fn lemma_bound_keys(entries: Seq<(Seq<char>, Seq<char>)>, key: Seq<char>)
    ensures
        entries_to_map(entries).contains_key(key) <==> exists|i: int|
            0 <= i < entries.len() && (#[trigger] entries[i]).0 == key,
    decreases entries.len(),
{
    if entries.len() > 0 {
        let front = entries.drop_last();
        lemma_bound_keys(front, key);
        if entries_to_map(entries).contains_key(key) {
            if entries.last().0 == key {
                assert(entries[entries.len() - 1].0 == key);
            } else {
                let i = choose|i: int| 0 <= i < front.len() && (#[trigger] front[i]).0 == key;
                assert(entries[i].0 == key);
            }
        }
        if exists|i: int| 0 <= i < entries.len() && (#[trigger] entries[i]).0 == key {
            let i = choose|i: int| 0 <= i < entries.len() && (#[trigger] entries[i]).0 == key;
            if i < front.len() {
                assert(front[i].0 == key);
            }
        }
    }
}

/// Whether every binding of `inner` is a binding of `outer`.
pub open spec fn is_submap(
    inner: Map<Seq<char>, Seq<char>>,
    outer: Map<Seq<char>, Seq<char>>,
) -> bool {
    forall|key: Seq<char>| #[trigger]
        inner.contains_key(key) ==> outer.contains_key(key) && outer[key] == inner[key]
}

impl StringMap {
    /// Whether every binding of `self` is a binding of `other`.
    pub fn within(&self, other: &StringMap) -> (r: bool)
        ensures
            r == is_submap(self@, other@),
    {
        let ghost entries = pairs_view(self.entries@);
        let mut i: usize = 0;
        while i < self.entries.len()
            invariant
                i <= self.entries.len(),
                entries == pairs_view(self.entries@),
                forall|j: int|
                    0 <= j < i ==> other@.contains_key((#[trigger] entries[j]).0)
                        && other@[entries[j].0] == self@[entries[j].0],
            decreases self.entries.len() - i,
        {
            let key = self.entries[i].0.as_str();
            proof {
                lemma_bound_keys(entries, key@);
                assert(entries[i as int].0 == key@);
            }
            let same = match (self.get(key), other.get(key)) {
                (Some(mine), Some(theirs)) => str_eq(mine.as_str(), theirs.as_str()),
                _ => false,
            };
            if !same {
                assert(self@.contains_key(key@));
                return false;
            }
            i += 1;
        }
        proof {
            assert forall|key: Seq<char>| #[trigger] self@.contains_key(key) implies other@.contains_key(
                key,
            ) && other@[key] == self@[key] by {
                lemma_bound_keys(entries, key);
                let j = choose|j: int| 0 <= j < entries.len() && (#[trigger] entries[j]).0 == key;
                assert(other@.contains_key(entries[j].0));
            }
        }
        true
    }
}

impl PartialEq for StringMap {
    /// Two maps are equal when they bind the same keys to the same values.
    fn eq(&self, other: &StringMap) -> (r: bool) {
        let r = self.within(other) && other.within(self);
        proof {
            if r {
                assert(self@ =~= other@);
            }
        }
        r
    }
}

impl vstd::std_specs::cmp::PartialEqSpecImpl for StringMap {
    open spec fn obeys_eq_spec() -> bool {
        true
    }

    open spec fn eq_spec(&self, other: &StringMap) -> bool {
        self@ == other@
    }
}

impl Eq for StringMap {

}

} // verus!
