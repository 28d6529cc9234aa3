//! A keyed store: the storage maps of the pallets, held as a list of
//! entries in which no key occurs twice.

use vstd::prelude::*;

verus! {

/// A key whose equality can be decided at run time.
pub trait StoreKey: Sized {
    fn same_key(&self, other: &Self) -> (r: bool)
        ensures
            r == (*self == *other),
    ;
}

impl StoreKey for u16 {
    fn same_key(&self, other: &Self) -> (r: bool) {
        *self == *other
    }
}

impl StoreKey for (u16, u64) {
    fn same_key(&self, other: &Self) -> (r: bool) {
        self.0 == other.0 && self.1 == other.1
    }
}

impl StoreKey for (u64, u64) {
    fn same_key(&self, other: &Self) -> (r: bool) {
        self.0 == other.0 && self.1 == other.1
    }
}

/// No key occurs twice in `s`.
pub open spec fn keys_unique<K, V>(s: Seq<(K, V)>) -> bool {
    forall|i: int, j: int| 0 <= i < s.len() && 0 <= j < s.len() && i != j ==> s[i].0 != s[j].0
}

/// `k` is the key of some entry of `s`.
pub open spec fn has_key<K, V>(s: Seq<(K, V)>, k: K) -> bool {
    exists|i: int| 0 <= i < s.len() && #[trigger] s[i].0 == k
}

/// The map that a list of entries stands for.
pub open spec fn entries_map<K, V>(s: Seq<(K, V)>) -> Map<K, V> {
    Map::new(
        |k: K| has_key(s, k),
        |k: K| s[choose|i: int| 0 <= i < s.len() && #[trigger] s[i].0 == k].1,
    )
}

/// In a list without repeated keys, the entry at `i` is what the map holds
/// for its key.
pub proof fn lemma_entry_in_map<K, V>(s: Seq<(K, V)>, i: int)
    requires
        keys_unique(s),
        0 <= i < s.len(),
    ensures
        entries_map(s).contains_key(s[i].0),
        entries_map(s)[s[i].0] == s[i].1,
{
    let k = s[i].0;
    assert(has_key(s, k));
    let j = choose|j: int| 0 <= j < s.len() && #[trigger] s[j].0 == k;
    assert(j == i);
}

pub struct Store<K, V> {
    entries: Vec<(K, V)>,
}

impl<K: StoreKey, V> Store<K, V> {
    /// The store is well formed: no key occurs twice.
    pub closed spec fn wf(&self) -> bool {
        keys_unique(self.entries@)
    }

    /// The map from keys to values that the store holds.
    pub closed spec fn view(&self) -> Map<K, V> {
        entries_map(self.entries@)
    }

    pub fn new() -> (s: Self)
        ensures
            s.wf(),
            s@ == Map::<K, V>::empty(),
    {
        let s = Store { entries: Vec::new() };
        assert(s@ =~= Map::<K, V>::empty());
        s
    }

    /// The position of `k` in the entry list, if it is there.
    fn position(&self, k: &K) -> (r: Option<usize>)
        requires
            self.wf(),
        ensures
            r is None ==> !self@.contains_key(*k),
            r matches Some(i) ==> i < self.entries@.len() && self.entries@[i as int].0 == *k,
    {
        let n = self.entries.len();
        let mut i: usize = 0;
        while i < n
            invariant
                n == self.entries@.len(),
                i <= n,
                forall|j: int| 0 <= j < i ==> self.entries@[j].0 != *k,
            decreases n - i,
        {
            if self.entries[i].0.same_key(k) {
                return Some(i);
            }
            i = i + 1;
        }
        None
    }

    pub fn contains_key(&self, k: &K) -> (r: bool)
        requires
            self.wf(),
        ensures
            r == self@.contains_key(*k),
    {
        match self.position(k) {
            Some(i) => {
                proof {
                    lemma_entry_in_map(self.entries@, i as int);
                }
                true
            },
            None => false,
        }
    }

    pub fn get(&self, k: &K) -> (r: Option<&V>)
        requires
            self.wf(),
        ensures
            r is Some == self@.contains_key(*k),
            r matches Some(v) ==> *v == self@[*k],
    {
        match self.position(k) {
            Some(i) => {
                proof {
                    lemma_entry_in_map(self.entries@, i as int);
                }
                Some(&self.entries[i].1)
            },
            None => None,
        }
    }

    pub fn insert(&mut self, k: K, v: V)
        requires
            old(self).wf(),
        ensures
            final(self).wf(),
            final(self)@ == old(self)@.insert(k, v),
    {
        let ghost s0 = self.entries@;
        match self.position(&k) {
            Some(i) => {
                self.entries.set(i, (k, v));
                let ghost s1 = self.entries@;
                assert(s1 == s0.update(i as int, (k, v)));
                assert(keys_unique(s1));
                assert forall|key: K| #![auto]
                    entries_map(s1).contains_key(key) == entries_map(s0).insert(k, v).contains_key(key)
                by {
                    if has_key(s0, key) {
                        let j = choose|j: int| 0 <= j < s0.len() && #[trigger] s0[j].0 == key;
                        if j == i {
                            assert(s1[j].0 == key);
                        } else {
                            assert(s1[j].0 == key);
                        }
                    }
                    if has_key(s1, key) {
                        let j = choose|j: int| 0 <= j < s1.len() && #[trigger] s1[j].0 == key;
                        if j != i {
                            assert(s0[j].0 == key);
                        }
                    }
                }
                assert forall|key: K| #[trigger] entries_map(s1).contains_key(key) implies
                    entries_map(s1)[key] == entries_map(s0).insert(k, v)[key]
                by {
                    let j = choose|j: int| 0 <= j < s1.len() && #[trigger] s1[j].0 == key;
                    lemma_entry_in_map(s1, j);
                    if j != i {
                        lemma_entry_in_map(s0, j);
                    }
                }
                assert(entries_map(s1) =~= entries_map(s0).insert(k, v));
            },
            None => {
                self.entries.push((k, v));
                let ghost s1 = self.entries@;
                assert(s1 == s0.push((k, v)));
                assert(!has_key(s0, k));
                assert(keys_unique(s1)) by {
                    assert forall|a: int, b: int|
                        0 <= a < s1.len() && 0 <= b < s1.len() && a != b implies s1[a].0 != s1[b].0
                    by {
                        if a == s0.len() {
                            assert(s1[b].0 == s0[b].0);
                        } else if b == s0.len() {
                            assert(s1[a].0 == s0[a].0);
                        }
                    }
                }
                assert forall|key: K| #![auto]
                    entries_map(s1).contains_key(key) == entries_map(s0).insert(k, v).contains_key(key)
                by {
                    if has_key(s0, key) {
                        let j = choose|j: int| 0 <= j < s0.len() && #[trigger] s0[j].0 == key;
                        assert(s1[j].0 == key);
                    }
                    if key == k {
                        assert(s1[s0.len() as int].0 == key);
                    }
                    if has_key(s1, key) {
                        let j = choose|j: int| 0 <= j < s1.len() && #[trigger] s1[j].0 == key;
                        if j < s0.len() {
                            assert(s0[j].0 == key);
                        }
                    }
                }
                assert forall|key: K| #[trigger] entries_map(s1).contains_key(key) implies
                    entries_map(s1)[key] == entries_map(s0).insert(k, v)[key]
                by {
                    let j = choose|j: int| 0 <= j < s1.len() && #[trigger] s1[j].0 == key;
                    lemma_entry_in_map(s1, j);
                    if j < s0.len() {
                        assert(s0[j] == s1[j]);
                        lemma_entry_in_map(s0, j);
                    }
                }
                assert(entries_map(s1) =~= entries_map(s0).insert(k, v));
            },
        }
    }

    /// Removes the entry of `k` and hands its value back.
    pub fn take(&mut self, k: &K) -> (r: Option<V>)
        requires
            old(self).wf(),
        ensures
            final(self).wf(),
            final(self)@ == old(self)@.remove(*k),
            r is Some == old(self)@.contains_key(*k),
            r matches Some(v) ==> v == old(self)@[*k],
    {
        let ghost s0 = self.entries@;
        match self.position(k) {
            Some(i) => {
                proof {
                    lemma_entry_in_map(s0, i as int);
                }
                let (_, v) = self.entries.remove(i);
                let ghost s1 = self.entries@;
                assert(s1 == s0.remove(i as int));
                assert(keys_unique(s1)) by {
                    assert forall|a: int, b: int|
                        0 <= a < s1.len() && 0 <= b < s1.len() && a != b implies s1[a].0 != s1[b].0
                    by {
                        let a0 = if a < i { a } else { a + 1 };
                        let b0 = if b < i { b } else { b + 1 };
                        assert(s1[a] == s0[a0]);
                        assert(s1[b] == s0[b0]);
                    }
                }
                assert forall|key: K| #![auto]
                    entries_map(s1).contains_key(key) == entries_map(s0).remove(*k).contains_key(key)
                by {
                    if has_key(s0, key) && key != *k {
                        let j = choose|j: int| 0 <= j < s0.len() && #[trigger] s0[j].0 == key;
                        assert(j != i);
                        let j1 = if j < i { j } else { j - 1 };
                        assert(s1[j1] == s0[j]);
                    }
                    if has_key(s1, key) {
                        let j = choose|j: int| 0 <= j < s1.len() && #[trigger] s1[j].0 == key;
                        let j0 = if j < i { j } else { j + 1 };
                        assert(s1[j] == s0[j0]);
                        assert(s0[j0].0 == key);
                        assert(j0 != i);
                    }
                }
                assert forall|key: K| #[trigger] entries_map(s1).contains_key(key) implies
                    entries_map(s1)[key] == entries_map(s0).remove(*k)[key]
                by {
                    let j = choose|j: int| 0 <= j < s1.len() && #[trigger] s1[j].0 == key;
                    lemma_entry_in_map(s1, j);
                    let j0 = if j < i { j } else { j + 1 };
                    assert(s1[j] == s0[j0]);
                    lemma_entry_in_map(s0, j0);
                }
                assert(entries_map(s1) =~= entries_map(s0).remove(*k));
                Some(v)
            },
            None => {
                assert(entries_map(s0) =~= entries_map(s0).remove(*k));
                None
            },
        }
    }
}

} // verus!
