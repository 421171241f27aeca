//! Sets and maps keyed by strings, kept as vectors of distinct keys.
use vstd::prelude::*;

use crate::text::str_eq;

verus! {

/// Whether the strings are pairwise distinct.
pub open spec fn distinct_keys(keys: Seq<String>) -> bool {
    forall|i: int, j: int| 0 <= i < j < keys.len() ==> keys[i]@ != keys[j]@
}

/// Whether `k` is one of the keys.
pub open spec fn has_key(keys: Seq<String>, k: Seq<char>) -> bool {
    exists|i: int| 0 <= i < keys.len() && #[trigger] keys[i]@ == k
}

/// The position of a key.
pub open spec fn key_index(keys: Seq<String>, k: Seq<char>) -> int {
    choose|i: int| 0 <= i < keys.len() && #[trigger] keys[i]@ == k
}

/// The position of `k` among the keys, if it is one of them.
fn find_key(keys: &Vec<String>, k: &str) -> (r: Option<usize>)
    ensures
        match r {
            Some(i) => i < keys@.len() && keys@[i as int]@ == k@,
            None => !has_key(keys@, k@),
        },
{
    let mut i: usize = 0;
    while i < keys.len()
        invariant
            i <= keys@.len(),
            forall|j: int| 0 <= j < i ==> #[trigger] keys@[j]@ != k@,
        decreases keys.len() - i,
    {
        if str_eq(keys[i].as_str(), k) {
            return Some(i);
        }
        i += 1;
    }
    None
}

/// A set of strings.
pub struct StringSet {
    items: Vec<String>,
}

impl StringSet {
    #[verifier::type_invariant]
    spec fn distinct(&self) -> bool {
        distinct_keys(self.items@)
    }

    /// The strings in the set.
    pub closed spec fn set_view(&self) -> Set<Seq<char>> {
        Set::new(|k: Seq<char>| has_key(self.items@, k))
    }

    /// The empty set.
    pub fn new() -> (s: Self)
        ensures
            s@ == Set::<Seq<char>>::empty(),
    {
        let s = StringSet { items: Vec::new() };
        assert(s@ =~= Set::<Seq<char>>::empty());
        s
    }

    /// Whether `k` is in the set.
    pub fn contains(&self, k: &str) -> (b: bool)
        ensures
            b == self@.contains(k@),
    {
        find_key(&self.items, k).is_some()
    }

    /// Adds `k`.
    pub fn insert(&mut self, k: String)
        ensures
            final(self)@ == old(self)@.insert(k@),
    {
        proof {
            use_type_invariant(&*self);
        }
        match find_key(&self.items, k.as_str()) {
            Some(_) => {
                assert(old(self)@.insert(k@) =~= old(self)@);
            },
            None => {
                let mut items: Vec<String> = Vec::new();
                std::mem::swap(&mut items, &mut self.items);
                items.push(k);
                self.items = items;
                assert forall|x: Seq<char>| #[trigger] self@.contains(x) == old(self)@.insert(k@).contains(x) by {
                    if has_key(old(self).items@, x) {
                        let i = choose|i: int| 0 <= i < old(self).items@.len() && #[trigger] old(self).items@[i]@ == x;
                        assert(self.items@[i]@ == x);
                    }
                    if x == k@ {
                        assert(self.items@[old(self).items@.len() as int]@ == x);
                    }
                }
                assert(self@ =~= old(self)@.insert(k@));
            },
        }
    }

    /// Removes `k`.
    pub fn remove(&mut self, k: &str)
        ensures
            final(self)@ == old(self)@.remove(k@),
    {
        proof {
            use_type_invariant(&*self);
        }
        match find_key(&self.items, k) {
            Some(i) => {
                let mut items: Vec<String> = Vec::new();
                std::mem::swap(&mut items, &mut self.items);
                items.remove(i);
                self.items = items;
                assert forall|x: Seq<char>| #[trigger] self@.contains(x) == old(self)@.remove(k@).contains(x) by {
                    if has_key(self.items@, x) {
                        let j = choose|j: int| 0 <= j < self.items@.len() && #[trigger] self.items@[j]@ == x;
                        if j < i {
                            assert(old(self).items@[j]@ == x);
                        } else {
                            assert(old(self).items@[j + 1]@ == x);
                        }
                    }
                    if has_key(old(self).items@, x) && x != k@ {
                        let j = choose|j: int| 0 <= j < old(self).items@.len() && #[trigger] old(self).items@[j]@ == x;
                        if j < i {
                            assert(self.items@[j]@ == x);
                        } else {
                            assert(self.items@[j - 1]@ == x);
                        }
                    }
                }
                assert(self@ =~= old(self)@.remove(k@));
            },
            None => {
                assert(old(self)@.remove(k@) =~= old(self)@);
            },
        }
    }
}

impl View for StringSet {
    type V = Set<Seq<char>>;

    open spec fn view(&self) -> Set<Seq<char>> {
        self.set_view()
    }
}

/// Whether `k` is the key of one of the entries.
pub open spec fn has_entry<V>(entries: Seq<(String, V)>, k: Seq<char>) -> bool {
    exists|i: int| 0 <= i < entries.len() && #[trigger] entries[i].0@ == k
}

/// The position of the entry of a key.
pub open spec fn entry_index<V>(entries: Seq<(String, V)>, k: Seq<char>) -> int {
    choose|i: int| 0 <= i < entries.len() && #[trigger] entries[i].0@ == k
}

/// Whether the entries' keys are pairwise distinct.
pub open spec fn distinct_entries<V>(entries: Seq<(String, V)>) -> bool {
    forall|i: int, j: int| 0 <= i < j < entries.len() ==> entries[i].0@ != entries[j].0@
}

/// The position of the entry of `k`, if there is one.
fn find_entry<V>(entries: &Vec<(String, V)>, k: &str) -> (r: Option<usize>)
    ensures
        match r {
            Some(i) => i < entries@.len() && entries@[i as int].0@ == k@,
            None => !has_entry(entries@, k@),
        },
{
    let mut i: usize = 0;
    while i < entries.len()
        invariant
            i <= entries@.len(),
            forall|j: int| 0 <= j < i ==> #[trigger] entries@[j].0@ != k@,
        decreases entries.len() - i,
    {
        if str_eq(entries[i].0.as_str(), k) {
            return Some(i);
        }
        i += 1;
    }
    None
}

/// A map from strings to values.
pub struct StringMap<V> {
    entries: Vec<(String, V)>,
}

impl<V> StringMap<V> {
    #[verifier::type_invariant]
    spec fn well_formed(&self) -> bool {
        distinct_entries(self.entries@)
    }

    /// The entries of the map.
    pub closed spec fn map_view(&self) -> Map<Seq<char>, V> {
        Map::new(
            |k: Seq<char>| has_entry(self.entries@, k),
            |k: Seq<char>| self.entries@[entry_index(self.entries@, k)].1,
        )
    }

    /// The empty map.
    pub fn new() -> (m: Self)
        ensures
            m@ == Map::<Seq<char>, V>::empty(),
    {
        let m = StringMap { entries: Vec::new() };
        assert(m@ =~= Map::<Seq<char>, V>::empty());
        m
    }

    /// Whether `k` has an entry.
    pub fn contains_key(&self, k: &str) -> (b: bool)
        ensures
            b == self@.contains_key(k@),
    {
        find_entry(&self.entries, k).is_some()
    }

    /// The value of `k`, if it has one.
    pub fn get(&self, k: &str) -> (r: Option<&V>)
        ensures
            match r {
                Some(v) => self@.contains_key(k@) && *v == self@[k@],
                None => !self@.contains_key(k@),
            },
    {
        proof {
            use_type_invariant(self);
        }
        match find_entry(&self.entries, k) {
            Some(i) => {
                let ghost j = entry_index(self.entries@, k@);
                assert(self.entries@[j].0@ == k@);
                assert(j == i);
                Some(&self.entries[i].1)
            },
            None => None,
        }
    }

    /// Sets the value of `k`, replacing the one it had.
    pub fn insert(&mut self, k: String, v: V)
        ensures
            final(self)@ == old(self)@.insert(k@, v),
    {
        proof {
            use_type_invariant(&*self);
        }
        let ghost kv = k@;
        let ghost old_entries = self.entries@;
        let found = find_entry(&self.entries, k.as_str());
        let mut entries: Vec<(String, V)> = Vec::new();
        std::mem::swap(&mut entries, &mut self.entries);
        let ghost n = entries@.len() as int;
        match found {
            Some(i) => {
                entries[i] = (k, v);
            },
            None => {
                entries.push((k, v));
            },
        }
        proof {
            assert forall|a: int, b: int| 0 <= a < b < entries@.len() implies entries@[a].0@ != entries@[b].0@ by {
                if found is None && b == n {
                    assert(!has_entry(old_entries, kv));
                    assert(old_entries[a].0@ != kv);
                }
            }
        }
        self.entries = entries;
        proof {
            assert forall|x: Seq<char>| #[trigger] self@.contains_key(x) == old(self)@.insert(kv, v).contains_key(x) by {
                if has_entry(old_entries, x) {
                    let j = choose|j: int| 0 <= j < old_entries.len() && #[trigger] old_entries[j].0@ == x;
                    assert(self.entries@[j].0@ == x);
                }
                if x == kv {
                    match found {
                        Some(i) => assert(self.entries@[i as int].0@ == x),
                        None => assert(self.entries@[n].0@ == x),
                    }
                }
                if has_entry(self.entries@, x) && x != kv {
                    let j = choose|j: int| 0 <= j < self.entries@.len() && #[trigger] self.entries@[j].0@ == x;
                    assert(old_entries[j].0@ == x);
                }
            }
            assert forall|x: Seq<char>| #[trigger] self@.contains_key(x) implies self@[x] == old(self)@.insert(kv, v)[x] by {
                let j = entry_index(self.entries@, x);
                assert(self.entries@[j].0@ == x);
                if x == kv {
                    match found {
                        Some(i) => assert(self.entries@[i as int].0@ == kv),
                        None => assert(self.entries@[n].0@ == kv),
                    }
                } else {
                    assert(has_entry(old_entries, x));
                    let j0 = entry_index(old_entries, x);
                    assert(old_entries[j0].0@ == x);
                    assert(self.entries@[j0].0@ == x);
                    assert(j0 == j);
                }
            }
            assert(self@.dom() =~= old(self)@.insert(kv, v).dom());
            assert(self@ =~= old(self)@.insert(kv, v));
        }
    }
}

impl<V> View for StringMap<V> {
    type V = Map<Seq<char>, V>;

    open spec fn view(&self) -> Map<Seq<char>, V> {
        self.map_view()
    }
}

} // verus!
