//! A small association map: entries in a vector, each key at most once.
//!
//! The map is the model of the bot registry's two tables.  Keys are
//! compared by their views.

use vstd::prelude::*;

verus! {

/// Keys that can be compared and copied by their views.
pub trait KeyEq: View + Sized {
    /// Whether two keys have the same view.
    fn key_eq(&self, other: &Self) -> (r: bool)
        ensures
            r == (self@ == other@),
    ;

    /// A copy of the key.
    fn key_clone(&self) -> (r: Self)
        ensures
            r@ == self@,
    ;
}

impl KeyEq for usize {
    fn key_eq(&self, other: &Self) -> (r: bool) {
        *self == *other
    }

    fn key_clone(&self) -> (r: Self) {
        *self
    }
}

impl KeyEq for String {
    fn key_eq(&self, other: &Self) -> (r: bool) {
        crate::text::str_eq(self.as_str(), other.as_str())
    }

    fn key_clone(&self) -> (r: Self) {
        self.clone()
    }
}

/// Entries with pairwise distinct key views.
pub open spec fn distinct_keys<K: View, V>(es: Seq<(K, V)>) -> bool {
    forall|i: int, j: int|
        0 <= i < es.len() && 0 <= j < es.len() && i != j ==> #[trigger] es[i].0@ != #[trigger] es[j].0@
}

/// Whether some entry has a key with view `k`.
pub open spec fn holds_key<K: View, V>(es: Seq<(K, V)>, k: K::V) -> bool {
    exists|i: int| 0 <= i < es.len() && #[trigger] es[i].0@ == k
}

/// The map that a sequence of entries stands for.
pub open spec fn assoc_map<K: View, V>(es: Seq<(K, V)>) -> Map<K::V, V> {
    Map::new(
        |k: K::V| holds_key(es, k),
        |k: K::V|
            {
                let i = choose|i: int| 0 <= i < es.len() && #[trigger] es[i].0@ == k;
                es[i].1
            },
    )
}

pub proof fn lemma_assoc_entry<K: View, V>(es: Seq<(K, V)>, i: int)
    requires
        distinct_keys(es),
        0 <= i < es.len(),
    ensures
        assoc_map(es).contains_key(es[i].0@),
        assoc_map(es)[es[i].0@] == es[i].1,
{
    let k = es[i].0@;
    assert(holds_key(es, k));
    let j = choose|j: int| 0 <= j < es.len() && #[trigger] es[j].0@ == k;
    assert(j == i);
}

pub proof fn lemma_distinct<K: View, V>(es: Seq<(K, V)>, a: int, b: int)
    requires
        distinct_keys(es),
        0 <= a < es.len(),
        0 <= b < es.len(),
        a != b,
    ensures
        es[a].0@ != es[b].0@,
{
}

pub proof fn lemma_assoc_absent<K: View, V>(es: Seq<(K, V)>, k: K::V)
    requires
        forall|i: int| 0 <= i < es.len() ==> #[trigger] es[i].0@ != k,
    ensures
        !assoc_map(es).contains_key(k),
{
}

proof fn lemma_assoc_len<K: View, V>(es: Seq<(K, V)>)
    requires
        distinct_keys(es),
    ensures
        assoc_map(es).len() == es.len(),
        assoc_map(es).dom().finite(),
{
    let ks = es.map_values(|e: (K, V)| e.0@);
    assert forall|a: int, b: int| 0 <= a < ks.len() && 0 <= b < ks.len() && a != b implies ks[a] != ks[b] by {
        assert(ks[a] == es[a].0@);
        assert(ks[b] == es[b].0@);
    }
    ks.unique_seq_to_set();
    assert forall|q: K::V| #[trigger] assoc_map(es).dom().contains(q) == ks.to_set().contains(q) by {
        if holds_key(es, q) {
            let j = choose|j: int| 0 <= j < es.len() && #[trigger] es[j].0@ == q;
            assert(ks[j] == q);
        }
        if ks.to_set().contains(q) {
            let j = choose|j: int| 0 <= j < ks.len() && ks[j] == q;
            assert(es[j].0@ == q);
        }
    }
    assert(assoc_map(es).dom() =~= ks.to_set());
}

/// An association map from keys to values, each key view at most once.
pub struct AssocMap<K: KeyEq, V> {
    entries: Vec<(K, V)>,
}

impl<K: KeyEq, V> View for AssocMap<K, V> {
    type V = Map<K::V, V>;

    closed spec fn view(&self) -> Map<K::V, V> {
        assoc_map(self.entries@)
    }
}

impl<K: KeyEq, V> AssocMap<K, V> {
    #[verifier::type_invariant]
    spec fn inv(self) -> bool {
        distinct_keys(self.entries@)
    }

    /// The entries in storage order.
    pub closed spec fn spec_entries(self) -> Seq<(K, V)> {
        self.entries@
    }

    /// An empty map.
    pub fn new() -> (m: Self)
        ensures
            m@ == Map::<K::V, V>::empty(),
    {
        let m = AssocMap { entries: Vec::new() };
        assert(assoc_map(m.entries@) =~= Map::<K::V, V>::empty());
        m
    }

    fn find_in(es: &Vec<(K, V)>, key: &K) -> (r: Option<usize>)
        ensures
            r matches Some(i) ==> i < es@.len() && es@[i as int].0@ == key@,
            r is None ==> forall|i: int| 0 <= i < es@.len() ==> #[trigger] es@[i].0@ != key@,
    {
        let n = es.len();
        let mut i: usize = 0;
        while i < n
            invariant
                n == es@.len(),
                i <= n,
                forall|j: int| 0 <= j < i ==> #[trigger] es@[j].0@ != key@,
            decreases n - i,
        {
            if es[i].0.key_eq(key) {
                return Some(i);
            }
            i = i + 1;
        }
        None
    }

    /// Whether the map holds `key`.
    pub fn contains_key(&self, key: &K) -> (r: bool)
        ensures
            r == self@.contains_key(key@),
    {
        proof { use_type_invariant(self); }
        match Self::find_in(&self.entries, key) {
            Some(i) => {
                proof { lemma_assoc_entry(self.entries@, i as int); }
                true
            },
            None => {
                proof { lemma_assoc_absent(self.entries@, key@); }
                false
            },
        }
    }

    /// The value stored under `key`, if any.
    pub fn get(&self, key: &K) -> (r: Option<&V>)
        ensures
            r is Some == self@.contains_key(key@),
            r matches Some(v) ==> *v == self@[key@],
    {
        proof { use_type_invariant(self); }
        match Self::find_in(&self.entries, key) {
            Some(i) => {
                proof { lemma_assoc_entry(self.entries@, i as int); }
                Some(&self.entries[i].1)
            },
            None => {
                proof { lemma_assoc_absent(self.entries@, key@); }
                None
            },
        }
    }

    /// Stores `value` under `key`, returning the value that was there.
    pub fn insert(&mut self, key: K, value: V) -> (r: Option<V>)
        ensures
            final(self)@ == old(self)@.insert(key@, value),
            r is Some == old(self)@.contains_key(key@),
            r matches Some(v) ==> v == old(self)@[key@],
    {
        proof { use_type_invariant(&*self); }
        let ghost old_es = self.entries@;
        let ghost k = key@;
        let ghost vv = value;
        let mut es: Vec<(K, V)> = Vec::new();
        std::mem::swap(&mut es, &mut self.entries);
        let found = Self::find_in(&es, &key);
        let r = match found {
            Some(i) => {
                proof { lemma_assoc_entry(old_es, i as int); }
                let mut entry = (key, value);
                std::mem::swap(&mut entry, &mut es[i]);
                proof {
                    let new_es = es@;
                    assert(new_es == old_es.update(i as int, new_es[i as int]));
                    assert(distinct_keys(new_es));
                    assert forall|q: K::V| #[trigger] assoc_map(new_es).contains_key(q) == (holds_key(old_es, q) || q == k) by {
                        if holds_key(new_es, q) {
                            let j = choose|j: int| 0 <= j < new_es.len() && #[trigger] new_es[j].0@ == q;
                            if j != i { assert(old_es[j].0@ == q); }
                        }
                        if holds_key(old_es, q) {
                            let j = choose|j: int| 0 <= j < old_es.len() && #[trigger] old_es[j].0@ == q;
                            assert(new_es[j].0@ == q);
                        }
                        if q == k { assert(new_es[i as int].0@ == q); }
                    }
                    assert forall|q: K::V| #[trigger] assoc_map(new_es).contains_key(q) implies assoc_map(new_es)[q] == assoc_map(old_es).insert(k, vv)[q] by {
                        let j = choose|j: int| 0 <= j < new_es.len() && #[trigger] new_es[j].0@ == q;
                        lemma_assoc_entry(new_es, j);
                        if j != i {
                            lemma_assoc_entry(old_es, j);
                        }
                    }
                    assert(assoc_map(new_es) =~= assoc_map(old_es).insert(k, vv));
                }
                Some(entry.1)
            },
            None => {
                proof { lemma_assoc_absent(old_es, k); }
                es.push((key, value));
                proof {
                    let new_es = es@;
                    assert(distinct_keys(new_es));
                    assert forall|q: K::V| #[trigger] assoc_map(new_es).contains_key(q) == (holds_key(old_es, q) || q == k) by {
                        if holds_key(new_es, q) {
                            let j = choose|j: int| 0 <= j < new_es.len() && #[trigger] new_es[j].0@ == q;
                            if j < old_es.len() { assert(old_es[j].0@ == q); }
                        }
                        if holds_key(old_es, q) {
                            let j = choose|j: int| 0 <= j < old_es.len() && #[trigger] old_es[j].0@ == q;
                            assert(new_es[j].0@ == q);
                        }
                        if q == k { assert(new_es[old_es.len() as int].0@ == q); }
                    }
                    assert forall|q: K::V| #[trigger] assoc_map(new_es).contains_key(q) implies assoc_map(new_es)[q] == assoc_map(old_es).insert(k, vv)[q] by {
                        let j = choose|j: int| 0 <= j < new_es.len() && #[trigger] new_es[j].0@ == q;
                        lemma_assoc_entry(new_es, j);
                        if j < old_es.len() {
                            lemma_assoc_entry(old_es, j);
                        }
                    }
                    assert(assoc_map(new_es) =~= assoc_map(old_es).insert(k, vv));
                }
                None
            },
        };
        self.entries = es;
        r
    }

    /// Removes `key`, returning the value that was stored under it.
    pub fn remove(&mut self, key: &K) -> (r: Option<V>)
        ensures
            final(self)@ == old(self)@.remove(key@),
            r is Some == old(self)@.contains_key(key@),
            r matches Some(v) ==> v == old(self)@[key@],
    {
        proof { use_type_invariant(&*self); }
        let ghost old_es = self.entries@;
        let ghost k = key@;
        let mut es: Vec<(K, V)> = Vec::new();
        std::mem::swap(&mut es, &mut self.entries);
        let found = Self::find_in(&es, key);
        let r = match found {
            Some(i) => {
                proof { lemma_assoc_entry(old_es, i as int); }
                let e = es.remove(i);
                proof {
                    let new_es = es@;
                    assert(new_es == old_es.remove(i as int));
                    assert forall|a: int, b: int|
                        0 <= a < new_es.len() && 0 <= b < new_es.len() && a != b implies #[trigger] new_es[a].0@ != #[trigger] new_es[b].0@ by {
                        let a0 = if a < i { a } else { a + 1 };
                        let b0 = if b < i { b } else { b + 1 };
                        assert(new_es[a] == old_es[a0]);
                        assert(new_es[b] == old_es[b0]);
                    }
                    assert forall|q: K::V| #[trigger] assoc_map(new_es).contains_key(q) == (holds_key(old_es, q) && q != k) by {
                        if holds_key(new_es, q) {
                            let j = choose|j: int| 0 <= j < new_es.len() && #[trigger] new_es[j].0@ == q;
                            let j0 = if j < i { j } else { j + 1 };
                            assert(old_es[j0].0@ == q);
                        }
                        if holds_key(old_es, q) && q != k {
                            let j = choose|j: int| 0 <= j < old_es.len() && #[trigger] old_es[j].0@ == q;
                            assert(j != i);
                            let j1 = if j < i { j } else { j - 1 };
                            assert(new_es[j1].0@ == q);
                        }
                    }
                    assert forall|q: K::V| #[trigger] assoc_map(new_es).contains_key(q) implies assoc_map(new_es)[q] == assoc_map(old_es)[q] by {
                        let j = choose|j: int| 0 <= j < new_es.len() && #[trigger] new_es[j].0@ == q;
                        lemma_assoc_entry(new_es, j);
                        let j0 = if j < i { j } else { j + 1 };
                        assert(old_es[j0] == new_es[j]);
                        lemma_assoc_entry(old_es, j0);
                    }
                    assert(assoc_map(new_es) =~= assoc_map(old_es).remove(k));
                }
                Some(e.1)
            },
            None => {
                proof {
                    lemma_assoc_absent(old_es, k);
                    assert(assoc_map(old_es) =~= assoc_map(old_es).remove(k));
                }
                None
            },
        };
        self.entries = es;
        r
    }

    /// The number of keys.
    pub fn len(&self) -> (r: usize)
        ensures
            r == self@.len(),
    {
        proof {
            use_type_invariant(self);
            lemma_assoc_len(self.entries@);
        }
        self.entries.len()
    }

    /// The entries, each key once, in storage order.
    pub fn entries(&self) -> (r: &Vec<(K, V)>)
        ensures
            r@ == self.spec_entries(),
            distinct_keys(r@),
            assoc_map(r@) == self@,
            self@.dom().finite(),
    {
        proof {
            use_type_invariant(self);
            lemma_assoc_len(self.entries@);
        }
        &self.entries
    }
}

} // verus!
