//! A small string-keyed table with map semantics (insertion replaces).

use vstd::prelude::*;

verus! {

/// A table from names to values. Inserting under a name that is already present
/// replaces the value stored for it, as a hash map does.
pub struct NameTable<V> {
    entries: Vec<(String, V)>,
    model: Ghost<Map<Seq<char>, V>>,
}

impl<V> View for NameTable<V> {
    type V = Map<Seq<char>, V>;

    /// The table seen as a map from names to values.
    closed spec fn view(&self) -> Map<Seq<char>, V> {
        self.model@
    }
}

impl<V> NameTable<V> {
    /// Internal consistency: names are distinct and the entries spell out the map.
    pub closed spec fn wf(&self) -> bool {
        &&& forall|i: int, j: int|
            0 <= i < self.entries@.len() && 0 <= j < self.entries@.len() && i != j
                ==> (#[trigger] self.entries@[i]).0@ != (#[trigger] self.entries@[j]).0@
        &&& forall|i: int|
            0 <= i < self.entries@.len() ==> {
                &&& self.model@.contains_key((#[trigger] self.entries@[i]).0@)
                &&& self.model@[self.entries@[i].0@] == self.entries@[i].1
            }
        &&& forall|k: Seq<char>|
            #[trigger] self.model@.contains_key(k) ==> exists|i: int|
                0 <= i < self.entries@.len() && (#[trigger] self.entries@[i]).0@ == k
    }

    pub fn new() -> (t: Self)
        ensures
            t.wf(),
            t.view() == Map::<Seq<char>, V>::empty(),
    {
        NameTable { entries: Vec::new(), model: Ghost(Map::empty()) }
    }

    /// Index of the entry named `key`, if any.
    fn find(&self, key: &String) -> (r: Option<usize>)
        requires
            self.wf(),
        ensures
            match r {
                Some(i) => i < self.entries@.len() && self.entries@[i as int].0@ == key@,
                None => !self.view().contains_key(key@),
            },
    {
        let mut i: usize = 0;
        while i < self.entries.len()
            invariant
                self.wf(),
                i <= self.entries@.len(),
                forall|j: int| 0 <= j < i ==> (#[trigger] self.entries@[j]).0@ != key@,
            decreases self.entries@.len() - i,
        {
            if self.entries[i].0 == *key {
                return Some(i);
            }
            i = i + 1;
        }
        None
    }

    /// Stores `value` under `key`, replacing what was stored under it before.
    pub fn insert(&mut self, key: String, value: V)
        requires
            old(self).wf(),
        ensures
            final(self).wf(),
            final(self).view() == old(self).view().insert(key@, value),
    {
        let ghost k = key@;
        let ghost old_model = self.model@;
        let ghost old_entries = self.entries@;
        match self.find(&key) {
            Some(i) => {
                self.entries.set(i, (key, value));
                self.model = Ghost(old_model.insert(k, value));
                assert forall|j: int| 0 <= j < self.entries@.len() implies {
                    &&& self.model@.contains_key((#[trigger] self.entries@[j]).0@)
                    &&& self.model@[self.entries@[j].0@] == self.entries@[j].1
                } by {
                    if j != i {
                        assert(old_entries[j] == self.entries@[j]);
                    }
                }
                assert forall|kk: Seq<char>| #[trigger] self.model@.contains_key(kk) implies exists|j: int|
                    0 <= j < self.entries@.len() && (#[trigger] self.entries@[j]).0@ == kk by {
                    if kk == k {
                        assert(self.entries@[i as int].0@ == kk);
                    } else {
                        let j = choose|j: int| 0 <= j < old_entries.len() && (#[trigger] old_entries[j]).0@ == kk;
                        assert(self.entries@[j].0@ == kk);
                    }
                }
            },
            None => {
                self.entries.push((key, value));
                self.model = Ghost(old_model.insert(k, value));
                let ghost n = old_entries.len() as int;
                assert forall|j: int| 0 <= j < self.entries@.len() implies {
                    &&& self.model@.contains_key((#[trigger] self.entries@[j]).0@)
                    &&& self.model@[self.entries@[j].0@] == self.entries@[j].1
                } by {
                    if j != n {
                        assert(old_entries[j] == self.entries@[j]);
                        assert(old_model.contains_key(old_entries[j].0@));
                    }
                }
                assert forall|kk: Seq<char>| #[trigger] self.model@.contains_key(kk) implies exists|j: int|
                    0 <= j < self.entries@.len() && (#[trigger] self.entries@[j]).0@ == kk by {
                    if kk == k {
                        assert(self.entries@[n].0@ == kk);
                    } else {
                        let j = choose|j: int| 0 <= j < old_entries.len() && (#[trigger] old_entries[j]).0@ == kk;
                        assert(self.entries@[j].0@ == kk);
                    }
                }
                assert forall|a: int, b: int|
                    0 <= a < self.entries@.len() && 0 <= b < self.entries@.len() && a != b
                        implies (#[trigger] self.entries@[a]).0@ != (#[trigger] self.entries@[b]).0@ by {
                    if a == n {
                        assert(old_model.contains_key(old_entries[b].0@));
                    } else if b == n {
                        assert(old_model.contains_key(old_entries[a].0@));
                    }
                }
            },
        }
    }

    /// The value stored under `key`, if any.
    pub fn get(&self, key: &str) -> (r: Option<&V>)
        requires
            self.wf(),
        ensures
            match r {
                Some(v) => self.view().contains_key(key@) && *v == self.view()[key@],
                None => !self.view().contains_key(key@),
            },
    {
        let k = key.to_owned();
        match self.find(&k) {
            Some(i) => Some(&self.entries[i].1),
            None => None,
        }
    }

    /// Removes the entry stored under `key` and hands its value back.
    pub fn remove(&mut self, key: &str) -> (r: Option<V>)
        requires
            old(self).wf(),
        ensures
            final(self).wf(),
            final(self).view() == old(self).view().remove(key@),
            match r {
                Some(v) => old(self).view().contains_key(key@) && v == old(self).view()[key@],
                None => !old(self).view().contains_key(key@),
            },
    {
        let k = key.to_owned();
        let ghost old_model = self.model@;
        let ghost old_entries = self.entries@;
        match self.find(&k) {
            None => {
                assert(old_model.remove(key@) =~= old_model);
                None
            },
            Some(i) => {
                let ghost last = old_entries.len() - 1;
                let (_name, v) = self.entries.swap_remove(i);
                self.model = Ghost(old_model.remove(key@));
                assert forall|a: int, b: int|
                    0 <= a < self.entries@.len() && 0 <= b < self.entries@.len() && a != b
                        implies (#[trigger] self.entries@[a]).0@ != (#[trigger] self.entries@[b]).0@ by {
                    let oa = if a == i { last } else { a };
                    let ob = if b == i { last } else { b };
                    assert(self.entries@[a] == old_entries[oa]);
                    assert(self.entries@[b] == old_entries[ob]);
                }
                assert forall|j: int| 0 <= j < self.entries@.len() implies {
                    &&& self.model@.contains_key((#[trigger] self.entries@[j]).0@)
                    &&& self.model@[self.entries@[j].0@] == self.entries@[j].1
                } by {
                    let oj = if j == i { last } else { j };
                    assert(self.entries@[j] == old_entries[oj]);
                    assert(old_entries[oj].0@ != old_entries[i as int].0@);
                }
                assert forall|kk: Seq<char>| #[trigger] self.model@.contains_key(kk) implies exists|j: int|
                    0 <= j < self.entries@.len() && (#[trigger] self.entries@[j]).0@ == kk by {
                    let j = choose|j: int| 0 <= j < old_entries.len() && (#[trigger] old_entries[j]).0@ == kk;
                    if j == last {
                        assert(self.entries@[i as int].0@ == kk);
                    } else {
                        assert(self.entries@[j].0@ == kk);
                    }
                }
                Some(v)
            },
        }
    }

    /// The names present in the table, each once.
    pub fn keys(&self) -> (r: Vec<String>)
        requires
            self.wf(),
        ensures
            forall|i: int| 0 <= i < r@.len() ==> self.view().contains_key(#[trigger] r@[i]@),
            forall|k: Seq<char>| #[trigger] self.view().contains_key(k) ==> exists|i: int|
                0 <= i < r@.len() && (#[trigger] r@[i])@ == k,
            forall|i: int, j: int| 0 <= i < r@.len() && 0 <= j < r@.len() && i != j
                ==> (#[trigger] r@[i])@ != (#[trigger] r@[j])@,
    {
        let mut r: Vec<String> = Vec::new();
        let mut i: usize = 0;
        while i < self.entries.len()
            invariant
                self.wf(),
                i <= self.entries@.len(),
                r@.len() == i,
                forall|j: int| 0 <= j < i ==> (#[trigger] r@[j])@ == self.entries@[j].0@,
            decreases self.entries@.len() - i,
        {
            r.push(self.entries[i].0.clone());
            i = i + 1;
        }
        assert forall|k: Seq<char>| #[trigger] self.view().contains_key(k) implies exists|j: int|
            0 <= j < r@.len() && (#[trigger] r@[j])@ == k by {
            let j = choose|j: int| 0 <= j < self.entries@.len() && (#[trigger] self.entries@[j]).0@ == k;
            assert(r@[j]@ == k);
        }
        assert forall|a: int, b: int| 0 <= a < r@.len() && 0 <= b < r@.len() && a != b
            implies (#[trigger] r@[a])@ != (#[trigger] r@[b])@ by {
            assert(self.entries@[a].0@ != self.entries@[b].0@);
        }
        r
    }
}

} // verus!
