//! A finite map from strings to strings, kept as a list of entries with
//! distinct keys.
use vstd::prelude::*;

verus! {

/// Keys of `s`, compared by their characters, are pairwise distinct.
pub open spec fn keys_distinct(s: Seq<(String, String)>) -> bool {
    forall|i: int, j: int| 0 <= i < s.len() && 0 <= j < s.len() && i != j ==> s[i].0@ != s[j].0@
}

/// Whether some entry of `s` has key `k`.
pub open spec fn has_key(s: Seq<(String, String)>, k: Seq<char>) -> bool {
    exists|i: int| 0 <= i < s.len() && s[i].0@ == k
}

/// The map that the entries `s` stand for.
pub open spec fn entries_map(s: Seq<(String, String)>) -> Map<Seq<char>, Seq<char>> {
    Map::new(
        |k: Seq<char>| has_key(s, k),
        |k: Seq<char>| s[choose|i: int| 0 <= i < s.len() && s[i].0@ == k].1@,
    )
}

pub proof fn lemma_entries_map_at(s: Seq<(String, String)>, i: int)
    requires
        keys_distinct(s),
        0 <= i < s.len(),
    ensures
        entries_map(s).dom().contains(s[i].0@),
        entries_map(s)[s[i].0@] == s[i].1@,
{
    let k = s[i].0@;
    assert(has_key(s, k));
    let j = choose|j: int| 0 <= j < s.len() && s[j].0@ == k;
    assert(j == i);
}

/// String-keyed map.
pub struct StrMap {
    entries: Vec<(String, String)>,
}

impl View for StrMap {
    type V = Map<Seq<char>, Seq<char>>;

    closed spec fn view(&self) -> Map<Seq<char>, Seq<char>> {
        entries_map(self.entries@)
    }
}

impl StrMap {
    #[verifier::type_invariant]
    spec fn inv(self) -> bool {
        keys_distinct(self.entries@)
    }

    /// An empty map.
    pub fn new() -> (m: StrMap)
        ensures
            m@ == Map::<Seq<char>, Seq<char>>::empty(),
    {
        let m = StrMap { entries: Vec::new() };
        assert(m@ =~= Map::<Seq<char>, Seq<char>>::empty());
        m
    }

    /// Index of the entry with key `k`.
    fn find(&self, k: &str) -> (r: Option<usize>)
        ensures
            r matches Some(i) ==> i < self.entries@.len() && self.entries@[i as int].0@ == k@,
            r is None ==> !has_key(self.entries@, k@),
    {
        let mut i: usize = 0;
        while i < self.entries.len()
            invariant
                i <= self.entries@.len(),
                forall|j: int| 0 <= j < i ==> self.entries@[j].0@ != k@,
            decreases self.entries@.len() - i,
        {
            if crate::text::str_eq(self.entries[i].0.as_str(), k) {
                return Some(i);
            }
            i = i + 1;
        }
        None
    }

    /// The value stored under `k`.
    pub fn get(&self, k: &str) -> (r: Option<&String>)
        ensures
            r is Some == self@.dom().contains(k@),
            r matches Some(v) ==> v@ == self@[k@],
    {
        proof {
            use_type_invariant(self);
        }
        match self.find(k) {
            Some(i) => {
                proof {
                    lemma_entries_map_at(self.entries@, i as int);
                }
                Some(&self.entries[i].1)
            },
            None => None,
        }
    }

    /// Stores `v` under `k`, replacing an earlier value.
    pub fn insert(&mut self, k: String, v: String)
        ensures
            final(self)@ == old(self)@.insert(k@, v@),
    {
        proof {
            use_type_invariant(&*self);
        }
        let ghost old_s = self.entries@;
        let ghost kv = k@;
        let ghost vv = v@;
        match self.find(k.as_str()) {
            Some(i) => {
                let mut entries: Vec<(String, String)> = Vec::new();
                std::mem::swap(&mut entries, &mut self.entries);
                entries.set(i, (k, v));
                let ghost s = entries@;
                assert(s =~= old_s.update(i as int, s[i as int]));
                assert forall|a: int, b: int| 0 <= a < s.len() && 0 <= b < s.len() && a != b implies s[a].0@
                    != s[b].0@ by {}
                proof {
                    assert forall|key: Seq<char>| #[trigger] entries_map(s).dom().contains(key) <==> entries_map(old_s).insert(kv, vv).dom().contains(key) by {
                        if key != kv && has_key(old_s, key) {
                            let j = choose|j: int| 0 <= j < old_s.len() && old_s[j].0@ == key;
                            assert(s[j].0@ == key);
                        }
                        if key == kv {
                            assert(s[i as int].0@ == key);
                        }
                    }
                    assert forall|key: Seq<char>| entries_map(s).dom().contains(key) implies #[trigger] entries_map(s)[key] == entries_map(old_s).insert(kv, vv)[key] by {
                        let j = choose|j: int| 0 <= j < s.len() && s[j].0@ == key;
                        lemma_entries_map_at(s, j);
                        if j != i {
                            lemma_entries_map_at(old_s, j);
                        }
                    }
                    assert(entries_map(s) =~= entries_map(old_s).insert(kv, vv));
                }
                self.entries = entries;
            },
            None => {
                let mut entries: Vec<(String, String)> = Vec::new();
                std::mem::swap(&mut entries, &mut self.entries);
                entries.push((k, v));
                let ghost s = entries@;
                assert(s =~= old_s.push(s[old_s.len() as int]));
                proof {
                    assert forall|key: Seq<char>| #[trigger] entries_map(s).dom().contains(key) <==> entries_map(old_s).insert(kv, vv).dom().contains(key) by {
                        if has_key(old_s, key) {
                            let j = choose|j: int| 0 <= j < old_s.len() && old_s[j].0@ == key;
                            assert(s[j].0@ == key);
                        }
                        if key == kv {
                            assert(s[old_s.len() as int].0@ == key);
                        }
                        if has_key(s, key) && key != kv {
                            let j = choose|j: int| 0 <= j < s.len() && s[j].0@ == key;
                            assert(old_s[j].0@ == key);
                        }
                    }
                    assert forall|key: Seq<char>| entries_map(s).dom().contains(key) implies #[trigger] entries_map(s)[key] == entries_map(old_s).insert(kv, vv)[key] by {
                        let j = choose|j: int| 0 <= j < s.len() && s[j].0@ == key;
                        lemma_entries_map_at(s, j);
                        if j < old_s.len() {
                            lemma_entries_map_at(old_s, j);
                        }
                    }
                    assert(entries_map(s) =~= entries_map(old_s).insert(kv, vv));
                }
                self.entries = entries;
            },
        }
    }

    /// Removes the entry under `k`, returning its value.
    pub fn remove(&mut self, k: &str) -> (r: Option<String>)
        ensures
            r is Some == old(self)@.dom().contains(k@),
            r matches Some(v) ==> v@ == old(self)@[k@],
            final(self)@ == old(self)@.remove(k@),
    {
        proof {
            use_type_invariant(&*self);
        }
        let ghost old_s = self.entries@;
        match self.find(k) {
            Some(i) => {
                proof {
                    lemma_entries_map_at(old_s, i as int);
                }
                let mut entries: Vec<(String, String)> = Vec::new();
                std::mem::swap(&mut entries, &mut self.entries);
                let (_key, value) = entries.remove(i);
                let ghost s = entries@;
                assert(s =~= old_s.remove(i as int));
                proof {
                    assert forall|key: Seq<char>| #[trigger] entries_map(s).dom().contains(key) <==> entries_map(old_s).remove(k@).dom().contains(key) by {
                        if has_key(old_s, key) && key != k@ {
                            let j = choose|j: int| 0 <= j < old_s.len() && old_s[j].0@ == key;
                            if j < i {
                                assert(s[j].0@ == key);
                            } else {
                                assert(s[j - 1].0@ == key);
                            }
                        }
                        if has_key(s, key) {
                            let j = choose|j: int| 0 <= j < s.len() && s[j].0@ == key;
                            if j < i {
                                assert(old_s[j].0@ == key);
                            } else {
                                assert(old_s[j + 1].0@ == key);
                            }
                        }
                    }
                    assert forall|key: Seq<char>| entries_map(s).dom().contains(key) implies #[trigger] entries_map(s)[key] == entries_map(old_s).remove(k@)[key] by {
                        let j = choose|j: int| 0 <= j < s.len() && s[j].0@ == key;
                        lemma_entries_map_at(s, j);
                        if j < i {
                            lemma_entries_map_at(old_s, j);
                        } else {
                            lemma_entries_map_at(old_s, j + 1);
                        }
                    }
                    assert(entries_map(s) =~= entries_map(old_s).remove(k@));
                }
                self.entries = entries;
                Some(value)
            },
            None => {
                assert(entries_map(old_s) =~= entries_map(old_s).remove(k@));
                None
            },
        }
    }
}

} // verus!

verus! {

/// A map reads back what was last written under a key, and writing under
/// one key leaves the others as they were; removing a key forgets it only.
pub proof fn lemma_write_then_read(m: Map<Seq<char>, Seq<char>>, k: Seq<char>, v: Seq<char>, other: Seq<char>)
    requires
        other != k,
    ensures
        m.insert(k, v).dom().contains(k),
        m.insert(k, v)[k] == v,
        m.insert(k, v).dom().contains(other) == m.dom().contains(other),
        m.dom().contains(other) ==> m.insert(k, v)[other] == m[other],
        !m.remove(k).dom().contains(k),
        m.remove(k).dom().contains(other) == m.dom().contains(other),
        m.dom().contains(other) ==> m.remove(k)[other] == m[other],
{
}

} // verus!
