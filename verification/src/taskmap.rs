//! A finite map keyed by a mission and the name of a task in it.
use vstd::prelude::*;

use crate::text::str_eq;

verus! {

/// A finite map from missions and names of tasks to values of `V`, stored as a list
/// of entries with pairwise different keys.
pub struct TaskMap<V> {
    entries: Vec<(u128, String, V)>,
}

/// The key of an entry.
pub open spec fn entry_key<V>(e: (u128, String, V)) -> (u128, Seq<char>) {
    (e.0, e.1@)
}

spec fn has_key<V>(s: Seq<(u128, String, V)>, k: (u128, Seq<char>)) -> bool {
    exists|i: int| 0 <= i < s.len() && entry_key(#[trigger] s[i]) == k
}

spec fn key_index<V>(s: Seq<(u128, String, V)>, k: (u128, Seq<char>)) -> int {
    choose|i: int| 0 <= i < s.len() && entry_key(#[trigger] s[i]) == k
}

spec fn entries_map<V>(s: Seq<(u128, String, V)>) -> Map<(u128, Seq<char>), V> {
    Map::new(|k: (u128, Seq<char>)| has_key(s, k), |k: (u128, Seq<char>)| s[key_index(s, k)].2)
}

spec fn keys_differ<V>(s: Seq<(u128, String, V)>) -> bool {
    forall|i: int, j: int|
        0 <= i < j < s.len() ==> entry_key(#[trigger] s[i]) != entry_key(#[trigger] s[j])
}

impl<V> View for TaskMap<V> {
    type V = Map<(u128, Seq<char>), V>;

    closed spec fn view(&self) -> Map<(u128, Seq<char>), V> {
        entries_map(self.entries@)
    }
}

/// Whether one of `s` has the key `k`.
pub open spec fn listed(s: Seq<(u128, String)>, k: (u128, Seq<char>)) -> bool {
    exists|i: int| 0 <= i < s.len() && (#[trigger] s[i]).0 == k.0 && s[i].1@ == k.1
}

fn is_listed(s: &Vec<(u128, String)>, mission: u128, task: &str) -> (r: bool)
    ensures
        r == listed(s@, (mission, task@)),
{
    let mut i: usize = 0;
    while i < s.len()
        invariant
            i <= s@.len(),
            forall|j: int| 0 <= j < i ==> !((#[trigger] s@[j]).0 == mission && s@[j].1@ == task@),
        decreases s@.len() - i,
    {
        if s[i].0 == mission && str_eq(s[i].1.as_str(), task) {
            return true;
        }
        i += 1;
    }
    false
}

impl<V> TaskMap<V> {
    #[verifier::type_invariant]
    spec fn keys_unique(self) -> bool {
        keys_differ(self.entries@)
    }

    pub fn new() -> (r: Self)
        ensures
            r@ == Map::<(u128, Seq<char>), V>::empty(),
    {
        let r = TaskMap { entries: Vec::new() };
        assert(r@ =~= Map::<(u128, Seq<char>), V>::empty());
        r
    }

    fn position(&self, mission: u128, task: &str) -> (r: Option<usize>)
        ensures
            match r {
                Some(i) => i < self.entries@.len() && entry_key(self.entries@[i as int]) == (
                    mission,
                    task@,
                ),
                None => !has_key(self.entries@, (mission, task@)),
            },
    {
        let mut i: usize = 0;
        while i < self.entries.len()
            invariant
                i <= self.entries@.len(),
                forall|j: int|
                    0 <= j < i ==> entry_key(#[trigger] self.entries@[j]) != (mission, task@),
            decreases self.entries@.len() - i,
        {
            if self.entries[i].0 == mission && str_eq(self.entries[i].1.as_str(), task) {
                return Some(i);
            }
            i += 1;
        }
        None
    }

    pub fn get(&self, mission: u128, task: &str) -> (r: Option<&V>)
        ensures
            match r {
                Some(v) => self@.dom().contains((mission, task@)) && self@[(mission, task@)] == *v,
                None => !self@.dom().contains((mission, task@)),
            },
    {
        proof {
            use_type_invariant(self);
        }
        match self.position(mission, task) {
            Some(i) => {
                assert(entry_key(self.entries@[i as int]) == (mission, task@));
                Some(&self.entries[i].2)
            },
            None => None,
        }
    }

    /// Binds a key to `value`, in place of what it was bound to.
    pub fn insert(&mut self, mission: u128, task: String, value: V)
        ensures
            final(self)@ == old(self)@.insert((mission, task@), value),
    {
        proof {
            use_type_invariant(&*self);
        }
        let at = self.position(mission, task.as_str());
        let mut entries: Vec<(u128, String, V)> = Vec::new();
        std::mem::swap(&mut entries, &mut self.entries);
        let ghost before = entries@;
        let ghost key = (mission, task@);
        let ghost entry = (mission, task, value);
        match at {
            Some(i) => {
                entries.set(i, (mission, task, value));
                proof {
                    let after = entries@;
                    assert(after =~= before.update(i as int, entry));
                    assert forall|k: (u128, Seq<char>)| has_key(after, k) == has_key(before, k) by {
                        if has_key(before, k) {
                            let j = key_index(before, k);
                            assert(entry_key(after[j]) == k);
                        }
                        if has_key(after, k) {
                            let j = key_index(after, k);
                            assert(entry_key(before[j]) == k);
                        }
                    }
                    assert(entry_key(before[i as int]) == key);
                    assert(entry_key(after[i as int]) == key);
                    assert(entries_map(after) =~= entries_map(before).insert(key, value));
                }
            },
            None => {
                entries.push((mission, task, value));
                proof {
                    let after = entries@;
                    assert(after =~= before.push(entry));
                    assert forall|k: (u128, Seq<char>)|
                        has_key(after, k) == (has_key(before, k) || k == key) by {
                        if has_key(before, k) {
                            let j = key_index(before, k);
                            assert(entry_key(after[j]) == k);
                        }
                        if k == key {
                            assert(entry_key(after[before.len() as int]) == k);
                        }
                        if has_key(after, k) && k != key {
                            let j = key_index(after, k);
                            assert(entry_key(before[j]) == k);
                        }
                    }
                    assert(entry_key(after[before.len() as int]) == key);
                    assert(entries_map(after) =~= entries_map(before).insert(key, value));
                }
            },
        }
        self.entries = entries;
    }

    /// Takes a key out of the map.
    pub fn remove(&mut self, mission: u128, task: &str)
        ensures
            final(self)@ == old(self)@.remove((mission, task@)),
    {
        proof {
            use_type_invariant(&*self);
        }
        let ghost key = (mission, task@);
        match self.position(mission, task) {
            Some(i) => {
                let mut entries: Vec<(u128, String, V)> = Vec::new();
                std::mem::swap(&mut entries, &mut self.entries);
                let ghost before = entries@;
                entries.remove(i);
                proof {
                    let after = entries@;
                    assert(entry_key(before[i as int]) == key);
                    assert forall|k: (u128, Seq<char>)|
                        has_key(after, k) == (has_key(before, k) && k != key) by {
                        if has_key(before, k) && k != key {
                            let j = key_index(before, k);
                            if j < i {
                                assert(entry_key(after[j]) == k);
                            } else {
                                assert(entry_key(after[j - 1]) == k);
                            }
                        }
                        if has_key(after, k) {
                            let j = key_index(after, k);
                            if j < i {
                                assert(entry_key(before[j]) == k);
                            } else {
                                assert(entry_key(before[j + 1]) == k);
                            }
                        }
                    }
                    assert(entries_map(after) =~= entries_map(before).remove(key));
                }
                self.entries = entries;
            },
            None => {
                assert(self@ =~= self@.remove(key));
            },
        }
    }

    /// The keys of the map, each once.
    pub fn keys(&self) -> (r: Vec<(u128, String)>)
        ensures
            forall|k: (u128, Seq<char>)| #[trigger] self@.dom().contains(k) == listed(r@, k),
            forall|i: int, j: int|
                0 <= i < j < r@.len() ==> (#[trigger] r@[i]).0 != (#[trigger] r@[j]).0 || r@[i].1@
                    != r@[j].1@,
    {
        proof {
            use_type_invariant(self);
        }
        let mut out: Vec<(u128, String)> = Vec::new();
        let mut i: usize = 0;
        while i < self.entries.len()
            invariant
                i <= self.entries@.len(),
                out@.len() == i,
                forall|j: int|
                    0 <= j < i ==> (#[trigger] out@[j]).0 == self.entries@[j].0 && out@[j].1@
                        == self.entries@[j].1@,
            decreases self.entries@.len() - i,
        {
            out.push((self.entries[i].0, self.entries[i].1.clone()));
            i += 1;
        }
        proof {
            assert forall|k: (u128, Seq<char>)| #[trigger] self@.dom().contains(k) == listed(
                out@,
                k,
            ) by {
                if has_key(self.entries@, k) {
                    let j = key_index(self.entries@, k);
                    assert(out@[j].0 == k.0 && out@[j].1@ == k.1);
                }
                if listed(out@, k) {
                    let j = choose|j: int|
                        0 <= j < out@.len() && (#[trigger] out@[j]).0 == k.0 && out@[j].1@ == k.1;
                    assert(entry_key(self.entries@[j]) == k);
                }
            }
            assert forall|i: int, j: int| 0 <= i < j < out@.len() implies (#[trigger] out@[i]).0
                != (#[trigger] out@[j]).0 || out@[i].1@ != out@[j].1@ by {
                assert(entry_key(self.entries@[i]) != entry_key(self.entries@[j]));
            }
        }
        out
    }

    /// Takes every key out of the map that is not among `live`.
    pub fn retain(&mut self, live: &Vec<(u128, String)>)
        ensures
            forall|k: (u128, Seq<char>)| #[trigger]
                final(self)@.dom().contains(k) == (old(self)@.dom().contains(k) && listed(
                    live@,
                    k,
                )),
            forall|k: (u128, Seq<char>)|
                final(self)@.dom().contains(k) ==> #[trigger] final(self)@[k] == old(self)@[k],
    {
        proof {
            use_type_invariant(&*self);
        }
        let mut i: usize = 0;
        let mut todo: Vec<(u128, String)> = Vec::new();
        while i < self.entries.len()
            invariant
                i <= self.entries@.len(),
                forall|j: int|
                    0 <= j < i && !listed(live@, entry_key(#[trigger] self.entries@[j])) ==> listed(
                        todo@,
                        entry_key(self.entries@[j]),
                    ),
                forall|j: int|
                    0 <= j < todo@.len() ==> !listed(
                        live@,
                        ((#[trigger] todo@[j]).0, todo@[j].1@),
                    ),
            decreases self.entries@.len() - i,
        {
            let mission = self.entries[i].0;
            if !is_listed(live, mission, self.entries[i].1.as_str()) {
                let ghost before = todo@;
                let name = self.entries[i].1.clone();
                todo.push((mission, name));
                assert forall|k: (u128, Seq<char>)| listed(before, k) implies listed(todo@, k) by {
                    let j = choose|j: int|
                        0 <= j < before.len() && (#[trigger] before[j]).0 == k.0 && before[j].1@
                            == k.1;
                    assert(todo@[j] == before[j]);
                }
                assert(todo@[before.len() as int].0 == mission);
            }
            i += 1;
        }
        let ghost first = self@;
        let mut k: usize = 0;
        while k < todo.len()
            invariant
                k <= todo@.len(),
                forall|q: (u128, Seq<char>)| #[trigger]
                    self@.dom().contains(q) == (first.dom().contains(q) && !listed(
                        todo@.take(k as int),
                        q,
                    )),
                forall|q: (u128, Seq<char>)|
                    self@.dom().contains(q) ==> #[trigger] self@[q] == first[q],
            decreases todo@.len() - k,
        {
            let ghost before = self@;
            self.remove(todo[k].0, todo[k].1.as_str());
            proof {
                let gone = (todo@[k as int].0, todo@[k as int].1@);
                assert forall|q: (u128, Seq<char>)|
                    listed(todo@.take(k + 1), q) == (listed(todo@.take(k as int), q) || q
                        == gone) by {
                    if listed(todo@.take(k as int), q) {
                        let s = todo@.take(k as int);
                        let j = choose|j: int|
                            0 <= j < s.len() && (#[trigger] s[j]).0 == q.0 && s[j].1@ == q.1;
                        assert(todo@.take(k + 1)[j] == s[j]);
                    }
                    if q == gone {
                        assert(todo@.take(k + 1)[k as int].0 == q.0);
                    }
                    if listed(todo@.take(k + 1), q) && q != gone {
                        let s = todo@.take(k + 1);
                        let j = choose|j: int|
                            0 <= j < s.len() && (#[trigger] s[j]).0 == q.0 && s[j].1@ == q.1;
                        assert(todo@.take(k as int)[j] == s[j]);
                    }
                }
            }
            k += 1;
        }
        proof {
            assert(todo@.take(k as int) =~= todo@);
            assert forall|q: (u128, Seq<char>)| #[trigger] self@.dom().contains(q) == (
            first.dom().contains(q) && listed(live@, q)) by {
                if first.dom().contains(q) && !listed(live@, q) {
                    let j = key_index(old(self).entries@, q);
                    assert(entry_key(old(self).entries@[j]) == q);
                }
                if listed(todo@, q) {
                    let j = choose|j: int|
                        0 <= j < todo@.len() && (#[trigger] todo@[j]).0 == q.0 && todo@[j].1@
                            == q.1;
                    assert(!listed(live@, (todo@[j].0, todo@[j].1@)));
                }
            }
        }
    }
}

} // verus!
