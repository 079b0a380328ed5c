//! A finite map keyed by text.
use vstd::prelude::*;

use crate::text::str_eq;

verus! {

/// A finite map from texts to values of `V`, stored as a list of entries with
/// pairwise different keys.
pub struct TextMap<V> {
    entries: Vec<(String, V)>,
}

/// Whether some entry has the key `k`.
spec fn has_key<V>(s: Seq<(String, V)>, k: Seq<char>) -> bool {
    exists|i: int| 0 <= i < s.len() && (#[trigger] s[i]).0@ == k
}

/// The position of an entry with the key `k`.
spec fn key_index<V>(s: Seq<(String, V)>, k: Seq<char>) -> int {
    choose|i: int| 0 <= i < s.len() && (#[trigger] s[i]).0@ == k
}

/// The map that a list of entries stands for.
spec fn entries_map<V>(s: Seq<(String, V)>) -> Map<Seq<char>, V> {
    Map::new(|k: Seq<char>| has_key(s, k), |k: Seq<char>| s[key_index(s, k)].1)
}

spec fn keys_differ<V>(s: Seq<(String, V)>) -> bool {
    forall|i: int, j: int|
        0 <= i < j < s.len() ==> (#[trigger] s[i]).0@ != (#[trigger] s[j]).0@
}

impl<V> View for TextMap<V> {
    type V = Map<Seq<char>, V>;

    closed spec fn view(&self) -> Map<Seq<char>, V> {
        entries_map(self.entries@)
    }
}

impl<V> TextMap<V> {
    #[verifier::type_invariant]
    spec fn keys_unique(self) -> bool {
        keys_differ(self.entries@)
    }

    pub fn new() -> (r: Self)
        ensures
            r@ == Map::<Seq<char>, V>::empty(),
    {
        let r = TextMap { entries: Vec::new() };
        assert(r@ =~= Map::<Seq<char>, V>::empty());
        r
    }

    fn position(&self, key: &str) -> (r: Option<usize>)
        ensures
            match r {
                Some(i) => i < self.entries@.len() && self.entries@[i as int].0@ == key@,
                None => !has_key(self.entries@, key@),
            },
    {
        let mut i: usize = 0;
        while i < self.entries.len()
            invariant
                i <= self.entries@.len(),
                forall|j: int| 0 <= j < i ==> (#[trigger] self.entries@[j]).0@ != key@,
            decreases self.entries@.len() - i,
        {
            if str_eq(self.entries[i].0.as_str(), key) {
                return Some(i);
            }
            i += 1;
        }
        None
    }

    pub fn contains(&self, key: &str) -> (r: bool)
        ensures
            r == self@.dom().contains(key@),
    {
        self.position(key).is_some()
    }

    pub fn get(&self, key: &str) -> (r: Option<&V>)
        ensures
            match r {
                Some(v) => self@.dom().contains(key@) && self@[key@] == *v,
                None => !self@.dom().contains(key@),
            },
    {
        proof {
            use_type_invariant(self);
        }
        match self.position(key) {
            Some(i) => {
                assert(self.entries@[i as int].0@ == key@);
                Some(&self.entries[i].1)
            },
            None => None,
        }
    }

    /// Binds `key` to `value`, in place of what it was bound to.
    pub fn insert(&mut self, key: String, value: V)
        ensures
            final(self)@ == old(self)@.insert(key@, value),
    {
        proof {
            use_type_invariant(&*self);
        }
        let at = self.position(key.as_str());
        let mut entries: Vec<(String, V)> = Vec::new();
        std::mem::swap(&mut entries, &mut self.entries);
        let ghost before = entries@;
        match at {
            Some(i) => {
                let ghost entry = (key, value);
                entries.set(i, (key, value));
                proof {
                    let after = entries@;
                    assert(after =~= before.update(i as int, entry));
                    assert forall|k: Seq<char>| has_key(after, k) == has_key(before, k) by {
                        if has_key(before, k) {
                            let j = key_index(before, k);
                            assert(after[j].0@ == k);
                        }
                        if has_key(after, k) {
                            let j = key_index(after, k);
                            assert(before[j].0@ == k);
                        }
                    }
                    assert(before[i as int].0@ == key@);
                    assert(after[i as int].0@ == key@);
                    assert(entries_map(after) =~= entries_map(before).insert(key@, value));
                }
            },
            None => {
                let ghost entry = (key, value);
                entries.push((key, value));
                proof {
                    let after = entries@;
                    assert(after =~= before.push(entry));
                    assert forall|k: Seq<char>|
                        has_key(after, k) == (has_key(before, k) || k == key@) by {
                        if has_key(before, k) {
                            let j = key_index(before, k);
                            assert(after[j].0@ == k);
                        }
                        if k == key@ {
                            assert(after[before.len() as int].0@ == k);
                        }
                        if has_key(after, k) && k != key@ {
                            let j = key_index(after, k);
                            assert(before[j].0@ == k);
                        }
                    }
                    assert(after[before.len() as int].0@ == key@);
                    assert(entries_map(after) =~= entries_map(before).insert(key@, value));
                }
            },
        }
        self.entries = entries;
    }

    /// Takes `key` out of the map, and returns what it was bound to.
    pub fn remove(&mut self, key: &str) -> (r: Option<V>)
        ensures
            final(self)@ == old(self)@.remove(key@),
            match r {
                Some(v) => old(self)@.dom().contains(key@) && old(self)@[key@] == v,
                None => !old(self)@.dom().contains(key@),
            },
    {
        proof {
            use_type_invariant(&*self);
        }
        match self.position(key) {
            Some(i) => {
                let mut entries: Vec<(String, V)> = Vec::new();
                std::mem::swap(&mut entries, &mut self.entries);
                let ghost before = entries@;
                let entry = entries.remove(i);
                proof {
                    let after = entries@;
                    assert(before[i as int].0@ == key@);
                    assert forall|k: Seq<char>|
                        has_key(after, k) == (has_key(before, k) && k != key@) by {
                        if has_key(before, k) && k != key@ {
                            let j = key_index(before, k);
                            if j < i {
                                assert(after[j].0@ == k);
                            } else {
                                assert(after[j - 1].0@ == k);
                            }
                        }
                        if has_key(after, k) {
                            let j = key_index(after, k);
                            if j < i {
                                assert(before[j].0@ == k);
                            } else {
                                assert(before[j + 1].0@ == k);
                            }
                        }
                    }
                    assert(entries_map(after) =~= entries_map(before).remove(key@));
                }
                self.entries = entries;
                Some(entry.1)
            },
            None => {
                assert(self@ =~= self@.remove(key@));
                None
            },
        }
    }

    /// The keys of the map.
    pub fn keys(&self) -> (r: Vec<String>)
        ensures
            forall|k: Seq<char>| #[trigger]
                self@.dom().contains(k) == r.deep_view().contains(k),
            r.deep_view().no_duplicates(),
    {
        proof {
            use_type_invariant(self);
        }
        let mut out: Vec<String> = Vec::new();
        let mut i: usize = 0;
        while i < self.entries.len()
            invariant
                i <= self.entries@.len(),
                out@.len() == i,
                forall|j: int| 0 <= j < i ==> (#[trigger] out@[j])@ == self.entries@[j].0@,
            decreases self.entries@.len() - i,
        {
            out.push(self.entries[i].0.clone());
            i += 1;
        }
        proof {
            assert forall|k: Seq<char>| #[trigger] self@.dom().contains(k)
                == out.deep_view().contains(k) by {
                if has_key(self.entries@, k) {
                    let j = key_index(self.entries@, k);
                    assert(out@[j]@ == k);
                    assert(out.deep_view()[j] == k);
                }
                if out.deep_view().contains(k) {
                    let j = choose|j: int| 0 <= j < out.deep_view().len() && out.deep_view()[j] == k;
                    assert(out@[j]@ == k);
                    assert(self.entries@[j].0@ == k);
                }
            }
        }
        out
    }
}

/// The texts that a map holds.
pub open spec fn texts(m: Map<Seq<char>, String>) -> Map<Seq<char>, Seq<char>> {
    m.map_values(|s: String| s@)
}

pub proof fn lemma_texts_insert(m: Map<Seq<char>, String>, k: Seq<char>, v: String)
    ensures
        texts(m.insert(k, v)) == texts(m).insert(k, v@),
{
    assert(texts(m.insert(k, v)) =~= texts(m).insert(k, v@));
}

} // verus!
