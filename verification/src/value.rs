//! The dynamic value model of the protocol: `Value` and `ValueMap`.

use vstd::prelude::*;
use crate::error::{WalleError, WalleResult};
use crate::text::{comma_join, decimal, decimal_string, int_text, push_decimal, push_int, push_joined, push_str, spec_str_debug, str_debug};
use crate::util::{TryAsMut, TryAsRef};
use base64::Engine;

verus! {

/// A 64-bit float carried by the protocol, held as its IEEE-754 bit
/// pattern.
#[derive(Debug, Clone, Copy, PartialEq, Eq, Structural)]
pub struct Float64 {
    pub bits: u64,
}

/// Raw bytes carried by the protocol.
#[derive(Debug, Clone, PartialEq)]
pub struct OneBotBytes(pub Vec<u8>);

/// Extended field value.
#[derive(Debug)]
pub enum Value {
    Str(String),
    F64(Float64),
    Int(i64),
    Bool(bool),
    Dict(ValueMap),
    List(Vec<Value>),
    Bytes(OneBotBytes),
    Null,
}

/// The mathematical model of a `Value`: strings as character
/// sequences, lists as sequences and maps as finite maps.
pub enum ValueView {
    Str(Seq<char>),
    F64(u64),
    Int(i64),
    Bool(bool),
    Dict(Map<Seq<char>, ValueView>),
    List(Seq<ValueView>),
    Bytes(Seq<u8>),
    Null,
}

/// The model of a value.
pub open spec fn value_view(v: Value) -> ValueView
    decreases v,
{
    match v {
        Value::Str(s) => ValueView::Str(s@),
        Value::F64(f) => ValueView::F64(f.bits),
        Value::Int(i) => ValueView::Int(i),
        Value::Bool(b) => ValueView::Bool(b),
        Value::Dict(m) => ValueView::Dict(kv_map(m.spec_keys(), m.spec_vals())),
        Value::List(l) => ValueView::List(
            Seq::new(
                l@.len(),
                |i: int|
                    if 0 <= i < l@.len() {
                        value_view(l@[i])
                    } else {
                        ValueView::Null
                    },
            ),
        ),
        Value::Bytes(b) => ValueView::Bytes(b.0@),
        Value::Null => ValueView::Null,
    }
}

impl View for Value {
    type V = ValueView;

    open spec fn view(&self) -> ValueView {
        value_view(*self)
    }
}

/// Extended field map: string keys, each present at most once.
#[derive(Debug)]
pub struct ValueMap {
    keys: Vec<String>,
    vals: Vec<Value>,
}

/// The keys are pairwise distinct.
pub open spec fn keys_distinct(ks: Seq<String>) -> bool {
    forall|i: int, j: int|
        0 <= i < ks.len() && 0 <= j < ks.len() && i != j ==> #[trigger] ks[i]@ != #[trigger] ks[j]@
}

/// Whether some key is `k`.
pub open spec fn has_key(ks: Seq<String>, k: Seq<char>) -> bool {
    exists|i: int| 0 <= i < ks.len() && #[trigger] ks[i]@ == k
}

/// The map that keys and the values at the same positions stand for.
pub open spec fn kv_map(ks: Seq<String>, vs: Seq<Value>) -> Map<Seq<char>, ValueView>
    decreases vs,
{
    Map::new(
        |k: Seq<char>| has_key(ks, k),
        |k: Seq<char>|
            {
                let i = choose|i: int| 0 <= i < ks.len() && #[trigger] ks[i]@ == k;
                if 0 <= i < vs.len() {
                    value_view(vs[i])
                } else {
                    ValueView::Null
                }
            },
    )
}

proof fn lemma_entry(ks: Seq<String>, vs: Seq<Value>, i: int)
    requires
        keys_distinct(ks),
        ks.len() == vs.len(),
        0 <= i < ks.len(),
    ensures
        kv_map(ks, vs).contains_key(ks[i]@),
        kv_map(ks, vs)[ks[i]@] == vs[i]@,
{
    let k = ks[i]@;
    assert(has_key(ks, k));
    let j = choose|j: int| 0 <= j < ks.len() && #[trigger] ks[j]@ == k;
    assert(j == i);
}

/// The entry at `i` of distinct keys is in their map, with its value.
pub proof fn lemma_entry_pub(ks: Seq<String>, vs: Seq<Value>, i: int)
    requires
        keys_distinct(ks),
        ks.len() == vs.len(),
        0 <= i < ks.len(),
    ensures
        kv_map(ks, vs).contains_key(ks[i]@),
        kv_map(ks, vs)[ks[i]@] == vs[i]@,
{
    lemma_entry(ks, vs, i);
}

proof fn lemma_no_entry(ks: Seq<String>, vs: Seq<Value>, k: Seq<char>)
    requires
        forall|i: int| 0 <= i < ks.len() ==> #[trigger] ks[i]@ != k,
    ensures
        !kv_map(ks, vs).contains_key(k),
{
}

proof fn lemma_set_val(ks: Seq<String>, vs: Seq<Value>, i: int, v: Value)
    requires
        keys_distinct(ks),
        ks.len() == vs.len(),
        0 <= i < ks.len(),
    ensures
        kv_map(ks, vs.update(i, v)) == kv_map(ks, vs).insert(ks[i]@, v@),
{
    let nv = vs.update(i, v);
    let k = ks[i]@;
    assert forall|q: Seq<char>| #[trigger] kv_map(ks, nv).contains_key(q) implies kv_map(ks, nv)[q] == kv_map(ks, vs).insert(k, v@)[q] by {
        let j = choose|j: int| 0 <= j < ks.len() && #[trigger] ks[j]@ == q;
        lemma_entry(ks, nv, j);
        if j != i {
            lemma_entry(ks, vs, j);
        }
    }
    assert(kv_map(ks, nv).dom() =~= kv_map(ks, vs).insert(k, v@).dom()) by {
        assert(has_key(ks, k));
    }
    assert(kv_map(ks, nv) =~= kv_map(ks, vs).insert(k, v@));
}

proof fn lemma_push(ks: Seq<String>, vs: Seq<Value>, key: String, v: Value)
    requires
        keys_distinct(ks),
        ks.len() == vs.len(),
        forall|i: int| 0 <= i < ks.len() ==> #[trigger] ks[i]@ != key@,
    ensures
        keys_distinct(ks.push(key)),
        kv_map(ks.push(key), vs.push(v)) == kv_map(ks, vs).insert(key@, v@),
{
    let nk = ks.push(key);
    let nv = vs.push(v);
    let k = key@;
    assert forall|a: int, b: int| 0 <= a < nk.len() && 0 <= b < nk.len() && a != b implies #[trigger] nk[a]@ != #[trigger] nk[b]@ by {
        if a < ks.len() && b < ks.len() {
            assert(nk[a] == ks[a]);
            assert(nk[b] == ks[b]);
        } else if a < ks.len() {
            assert(nk[a] == ks[a]);
        } else {
            assert(nk[b] == ks[b]);
        }
    }
    assert forall|q: Seq<char>| #[trigger] kv_map(nk, nv).contains_key(q) == (has_key(ks, q) || q == k) by {
        if has_key(nk, q) {
            let j = choose|j: int| 0 <= j < nk.len() && #[trigger] nk[j]@ == q;
            if j < ks.len() { assert(ks[j]@ == q); }
        }
        if has_key(ks, q) {
            let j = choose|j: int| 0 <= j < ks.len() && #[trigger] ks[j]@ == q;
            assert(nk[j]@ == q);
        }
        if q == k { assert(nk[ks.len() as int]@ == q); }
    }
    assert forall|q: Seq<char>| #[trigger] kv_map(nk, nv).contains_key(q) implies kv_map(nk, nv)[q] == kv_map(ks, vs).insert(k, v@)[q] by {
        let j = choose|j: int| 0 <= j < nk.len() && #[trigger] nk[j]@ == q;
        lemma_entry(nk, nv, j);
        if j < ks.len() {
            assert(nk[j] == ks[j]);
            assert(nv[j] == vs[j]);
            lemma_entry(ks, vs, j);
        }
    }
    assert(kv_map(nk, nv) =~= kv_map(ks, vs).insert(k, v@));
}

proof fn lemma_remove_at(ks: Seq<String>, vs: Seq<Value>, i: int)
    requires
        keys_distinct(ks),
        ks.len() == vs.len(),
        0 <= i < ks.len(),
    ensures
        keys_distinct(ks.remove(i)),
        kv_map(ks.remove(i), vs.remove(i)) == kv_map(ks, vs).remove(ks[i]@),
{
    let nk = ks.remove(i);
    let nv = vs.remove(i);
    let k = ks[i]@;
    assert forall|a: int, b: int| 0 <= a < nk.len() && 0 <= b < nk.len() && a != b implies #[trigger] nk[a]@ != #[trigger] nk[b]@ by {
        let a0 = if a < i { a } else { a + 1 };
        let b0 = if b < i { b } else { b + 1 };
        assert(nk[a] == ks[a0]);
        assert(nk[b] == ks[b0]);
    }
    assert forall|q: Seq<char>| #[trigger] kv_map(nk, nv).contains_key(q) == (has_key(ks, q) && q != k) by {
        if has_key(nk, q) {
            let j = choose|j: int| 0 <= j < nk.len() && #[trigger] nk[j]@ == q;
            let j0 = if j < i { j } else { j + 1 };
            assert(ks[j0]@ == q);
        }
        if has_key(ks, q) && q != k {
            let j = choose|j: int| 0 <= j < ks.len() && #[trigger] ks[j]@ == q;
            assert(j != i);
            let j1 = if j < i { j } else { j - 1 };
            assert(nk[j1]@ == q);
        }
    }
    assert forall|q: Seq<char>| #[trigger] kv_map(nk, nv).contains_key(q) implies kv_map(nk, nv)[q] == kv_map(ks, vs)[q] by {
        let j = choose|j: int| 0 <= j < nk.len() && #[trigger] nk[j]@ == q;
        lemma_entry(nk, nv, j);
        let j0 = if j < i { j } else { j + 1 };
        assert(ks[j0] == nk[j]);
        assert(vs[j0] == nv[j]);
        lemma_entry(ks, vs, j0);
    }
    assert(kv_map(nk, nv) =~= kv_map(ks, vs).remove(k));
}

impl ValueMap {
    #[verifier::type_invariant]
    spec fn inv(self) -> bool {
        &&& self.keys@.len() == self.vals@.len()
        &&& keys_distinct(self.keys@)
    }

    /// The keys of the map, in storage order.
    pub closed spec fn spec_keys(self) -> Seq<String> {
        self.keys@
    }

    /// The keys of the map as text, in storage order.
    pub open spec fn key_views(self) -> Seq<Seq<char>> {
        self.spec_keys().map_values(|k: String| k@)
    }

    /// The values of the map, at the positions of their keys.
    pub closed spec fn spec_vals(self) -> Seq<Value> {
        self.vals@
    }

    /// The value stored under `k`.
    pub closed spec fn value_at(self, k: Seq<char>) -> Value {
        self.vals@[choose|i: int| 0 <= i < self.keys@.len() && #[trigger] self.keys@[i]@ == k]
    }

    proof fn lemma_value_at(self, i: int)
        requires
            self.inv(),
            0 <= i < self.keys@.len(),
        ensures
            self.value_at(self.keys@[i]@) == self.vals@[i],
    {
        let k = self.keys@[i]@;
        let j = choose|j: int| 0 <= j < self.keys@.len() && #[trigger] self.keys@[j]@ == k;
        assert(j == i);
    }

    /// An empty map.
    pub fn new() -> (m: ValueMap)
        ensures
            m@ == Map::<Seq<char>, ValueView>::empty(),
    {
        let m = ValueMap { keys: Vec::new(), vals: Vec::new() };
        assert(kv_map(m.keys@, m.vals@) =~= Map::<Seq<char>, ValueView>::empty());
        m
    }

    fn find(&self, key: &str) -> (r: Option<usize>)
        ensures
            r matches Some(i) ==> i < self.keys@.len() && self.keys@[i as int]@ == key@,
            r is None ==> forall|i: int| 0 <= i < self.keys@.len() ==> #[trigger] self.keys@[i]@ != key@,
    {
        find_key(&self.keys, key)
    }

    /// Whether the map holds `key`.
    pub fn contains_key(&self, key: &str) -> (r: bool)
        ensures
            r == self@.contains_key(key@),
    {
        proof { use_type_invariant(self); }
        match self.find(key) {
            Some(i) => {
                proof { lemma_entry(self.keys@, self.vals@, i as int); }
                true
            },
            None => {
                proof { lemma_no_entry(self.keys@, self.vals@, key@); }
                false
            },
        }
    }

    /// The value stored under `key`, if any.
    pub fn get(&self, key: &str) -> (r: Option<&Value>)
        ensures
            r is Some == self@.contains_key(key@),
            r matches Some(v) ==> v@ == self@[key@] && *v == self.value_at(key@),
    {
        proof { use_type_invariant(self); }
        match self.find(key) {
            Some(i) => {
                proof {
                    lemma_entry(self.keys@, self.vals@, i as int);
                    self.lemma_value_at(i as int);
                }
                Some(&self.vals[i])
            },
            None => {
                proof { lemma_no_entry(self.keys@, self.vals@, key@); }
                None
            },
        }
    }

    /// The value stored under `key`, to change in place.
    pub fn get_mut(&mut self, key: &str) -> (r: Option<&mut Value>)
        ensures
            r is Some == old(self)@.contains_key(key@),
            r matches Some(v) ==> (*v)@ == old(self)@[key@] && *v == old(self).value_at(key@)
                && final(self)@ == old(self)@.insert(key@, final(v)@),
            r is None ==> final(self)@ == old(self)@,
    {
        proof { use_type_invariant(&*self); }
        match self.find(key) {
            Some(i) => {
                proof {
                    lemma_entry(self.keys@, self.vals@, i as int);
                    self.lemma_value_at(i as int);
                }
                let ghost ks = self.keys@;
                let ghost vs = self.vals@;
                let r = &mut self.vals[i];
                proof {
                    lemma_set_val(ks, vs, i as int, *final(r));
                }
                Some(r)
            },
            None => {
                proof { lemma_no_entry(self.keys@, self.vals@, key@); }
                None
            },
        }
    }

    /// Stores `value` under `key`, returning the value that was there.
    pub fn insert(&mut self, key: String, value: Value) -> (r: Option<Value>)
        ensures
            final(self)@ == old(self)@.insert(key@, value@),
            r is Some == old(self)@.contains_key(key@),
            r matches Some(v) ==> v@ == old(self)@[key@],
    {
        proof { use_type_invariant(&*self); }
        let ghost ks = self.keys@;
        let ghost vs = self.vals@;
        let mut taken = ValueMap::new();
        std::mem::swap(&mut taken, self);
        let ValueMap { keys: mut keys, vals: mut vals } = taken;
        let found = find_key(&keys, key.as_str());
        let r = match found {
            Some(i) => {
                proof {
                    lemma_entry(ks, vs, i as int);
                    lemma_set_val(ks, vs, i as int, value);
                }
                let mut v = value;
                std::mem::swap(&mut v, &mut vals[i]);
                Some(v)
            },
            None => {
                proof {
                    lemma_no_entry(ks, vs, key@);
                    lemma_push(ks, vs, key, value);
                }
                keys.push(key);
                vals.push(value);
                None
            },
        };
        *self = ValueMap { keys, vals };
        r
    }

    /// Removes `key`, returning the value that was stored under it.
    pub fn remove(&mut self, key: &str) -> (r: Option<Value>)
        ensures
            final(self)@ == old(self)@.remove(key@),
            r is Some == old(self)@.contains_key(key@),
            r matches Some(v) ==> v@ == old(self)@[key@],
    {
        proof { use_type_invariant(&*self); }
        let ghost ks = self.keys@;
        let ghost vs = self.vals@;
        match self.find(key) {
            Some(i) => {
                proof {
                    lemma_entry(ks, vs, i as int);
                    lemma_remove_at(ks, vs, i as int);
                }
                let mut taken = ValueMap::new();
                std::mem::swap(&mut taken, self);
                let ValueMap { keys: mut keys, vals: mut vals } = taken;
                let _ = keys.remove(i);
                let v = vals.remove(i);
                *self = ValueMap { keys, vals };
                Some(v)
            },
            None => {
                proof {
                    lemma_no_entry(ks, vs, key@);
                    assert(kv_map(ks, vs) =~= kv_map(ks, vs).remove(key@));
                }
                None
            },
        }
    }

    /// The number of keys in the map.
    pub fn len(&self) -> (r: usize)
        ensures
            r == self@.len(),
    {
        proof {
            use_type_invariant(self);
            lemma_len(self.keys@, self.vals@);
        }
        self.keys.len()
    }

    /// Whether the map holds no key.
    pub fn is_empty(&self) -> (r: bool)
        ensures
            r == (self@ == Map::<Seq<char>, ValueView>::empty()),
    {
        proof { use_type_invariant(self); }
        if self.keys.len() == 0 {
            assert(self@ =~= Map::<Seq<char>, ValueView>::empty());
            true
        } else {
            proof { lemma_entry(self.keys@, self.vals@, 0); }
            assert(self@.contains_key(self.keys@[0]@));
            false
        }
    }

    /// The keys of the map, each once, in storage order.
    pub fn keys(&self) -> (r: &Vec<String>)
        ensures
            r@ == self.spec_keys(),
            keys_distinct(r@),
            r@.len() == self.spec_vals().len(),
            kv_map(r@, self.spec_vals()) == self@,
    {
        proof { use_type_invariant(self); }
        &self.keys
    }

    /// The values of the map, at the positions of their keys.
    pub fn values(&self) -> (r: &Vec<Value>)
        ensures
            r@ == self.spec_vals(),
    {
        &self.vals
    }

    /// The keys and the values of the map, at the same positions.
    pub fn into_parts(self) -> (r: (Vec<String>, Vec<Value>))
        ensures
            keys_distinct(r.0@),
            r.0@.len() == r.1@.len(),
            kv_map(r.0@, r.1@) == self@,
    {
        proof { use_type_invariant(&self); }
        let ValueMap { keys, vals } = self;
        (keys, vals)
    }

    /// A copy of the map, with the same model.
    pub fn deep_clone(&self) -> (r: ValueMap)
        ensures
            r@ == self@,
        decreases self,
    {
        proof { use_type_invariant(self); }
        let n = self.keys.len();
        let mut ks: Vec<String> = Vec::new();
        let mut vs: Vec<Value> = Vec::new();
        let mut i: usize = 0;
        while i < n
            invariant
                n == self.keys@.len(),
                n == self.vals@.len(),
                i <= n,
                ks@.len() == i,
                vs@.len() == i,
                forall|j: int| 0 <= j < i ==> #[trigger] ks@[j]@ == self.keys@[j]@,
                forall|j: int| 0 <= j < i ==> #[trigger] vs@[j]@ == self.vals@[j]@,
            decreases n - i,
        {
            assert(decreases_to!(self => self.vals));
            assert(decreases_to!(self.vals => self.vals@));
            assert(decreases_to!(self.vals@ => self.vals@[i as int]));
            let k = self.keys[i].clone();
            let v = self.vals[i].deep_clone();
            ks.push(k);
            vs.push(v);
            i = i + 1;
        }
        proof { lemma_same_map(ks@, vs@, self.keys@, self.vals@); }
        ValueMap { keys: ks, vals: vs }
    }

    /// The entries of the map as `Debug` shows them inside braces, in
    /// storage order: each key's text, `": "` and its value's text,
    /// separated by `", "`.
    pub fn debug_entries(&self) -> (r: String)
        ensures
            exists|ts: Seq<Seq<char>>|
                ts.len() == self.spec_keys().len()
                && (forall|i: int| 0 <= i < ts.len() ==> debug_of(self.spec_vals()[i]@, #[trigger] ts[i]))
                && r@ == #[trigger] entries_text(self.key_views(), ts),
        decreases self,
    {
        proof { use_type_invariant(self); reveal_strlit(": "); reveal_strlit(", "); }
        let n = self.keys.len();
        let mut out = String::new();
        let ghost ks = self.keys@.map_values(|k: String| k@);
        let ghost mut ts: Seq<Seq<char>> = Seq::empty();
        let mut i: usize = 0;
        while i < n
            invariant
                n == self.keys@.len(),
                n == self.vals@.len(),
                ks == self.keys@.map_values(|k: String| k@),
                i <= n,
                ts.len() == i,
                forall|j: int| 0 <= j < i ==> debug_of(self.vals@[j]@, #[trigger] ts[j]),
                out@ == entries_text(ks.take(i as int), ts),
            decreases n - i,
        {
            assert(decreases_to!(self => self.vals));
            assert(decreases_to!(self.vals => self.vals@));
            assert(decreases_to!(self.vals@ => self.vals@[i as int]));
            let k = str_debug(self.keys[i].as_str());
            let mut entry = k;
            push_str(&mut entry, ": ");
            let v = self.vals[i].debug_text();
            push_str(&mut entry, v.as_str());
            let ghost parts = Seq::new(i as nat, |j: int| spec_str_debug(ks.take(i as int)[j]) + ": "@ + ts[j]);
            assert(out@ == comma_join(parts));
            push_joined(&mut out, Ghost(parts), i == 0, entry.as_str());
            proof {
                let nts = ts.push(v@);
                let nparts = Seq::new((i + 1) as nat, |j: int| spec_str_debug(ks.take(i + 1)[j]) + ": "@ + nts[j]);
                assert(ks[i as int] == self.keys@[i as int]@);
                assert(nparts =~= parts.push(entry@));
                ts = nts;
            }
            i = i + 1;
        }
        assert(ks.take(n as int) =~= ks);
        assert(out@ == entries_text(self.key_views(), ts));
        out
    }
}

fn find_key(ks: &Vec<String>, key: &str) -> (r: Option<usize>)
    ensures
        r matches Some(i) ==> i < ks@.len() && ks@[i as int]@ == key@,
        r is None ==> forall|i: int| 0 <= i < ks@.len() ==> #[trigger] ks@[i]@ != key@,
{
    let n = ks.len();
    let mut i: usize = 0;
    while i < n
        invariant
            n == ks@.len(),
            i <= n,
            forall|j: int| 0 <= j < i ==> #[trigger] ks@[j]@ != key@,
        decreases n - i,
    {
        if crate::text::str_eq(ks[i].as_str(), key) {
            return Some(i);
        }
        i = i + 1;
    }
    None
}

proof fn lemma_same_map(ka: Seq<String>, va: Seq<Value>, kb: Seq<String>, vb: Seq<Value>)
    requires
        keys_distinct(kb),
        kb.len() == vb.len(),
        ka.len() == kb.len(),
        va.len() == vb.len(),
        forall|j: int| 0 <= j < ka.len() ==> #[trigger] ka[j]@ == kb[j]@,
        forall|j: int| 0 <= j < va.len() ==> #[trigger] va[j]@ == vb[j]@,
    ensures
        keys_distinct(ka),
        kv_map(ka, va) == kv_map(kb, vb),
{
    assert forall|i: int, j: int| 0 <= i < ka.len() && 0 <= j < ka.len() && i != j implies #[trigger] ka[i]@ != #[trigger] ka[j]@ by {
        assert(ka[i]@ == kb[i]@);
        assert(ka[j]@ == kb[j]@);
    }
    assert forall|q: Seq<char>| #[trigger] kv_map(ka, va).contains_key(q) == kv_map(kb, vb).contains_key(q) by {
        if has_key(ka, q) {
            let j = choose|j: int| 0 <= j < ka.len() && #[trigger] ka[j]@ == q;
            assert(kb[j]@ == q);
        }
        if has_key(kb, q) {
            let j = choose|j: int| 0 <= j < kb.len() && #[trigger] kb[j]@ == q;
            assert(ka[j]@ == q);
        }
    }
    assert forall|q: Seq<char>| #[trigger] kv_map(ka, va).contains_key(q) implies kv_map(ka, va)[q] == kv_map(kb, vb)[q] by {
        let j = choose|j: int| 0 <= j < ka.len() && #[trigger] ka[j]@ == q;
        lemma_entry(ka, va, j);
        lemma_entry(kb, vb, j);
    }
    assert(kv_map(ka, va) =~= kv_map(kb, vb));
}

proof fn lemma_len(ks: Seq<String>, vs: Seq<Value>)
    requires
        keys_distinct(ks),
    ensures
        kv_map(ks, vs).len() == ks.len(),
        kv_map(ks, vs).dom().finite(),
{
    let kv = ks.map_values(|s: String| s@);
    assert forall|a: int, b: int| 0 <= a < kv.len() && 0 <= b < kv.len() && a != b implies kv[a] != kv[b] by {
        assert(kv[a] == ks[a]@);
        assert(kv[b] == ks[b]@);
    }
    assert(kv.no_duplicates());
    kv.unique_seq_to_set();
    assert forall|q: Seq<char>| #[trigger] kv_map(ks, vs).dom().contains(q) == kv.to_set().contains(q) by {
        if has_key(ks, q) {
            let j = choose|j: int| 0 <= j < ks.len() && #[trigger] ks[j]@ == q;
            assert(kv[j] == q);
        }
        if kv.to_set().contains(q) {
            let j = choose|j: int| 0 <= j < kv.len() && kv[j] == q;
            assert(ks[j]@ == q);
        }
    }
    assert(kv_map(ks, vs).dom() =~= kv.to_set());
}

/// A map value's model holds the model of the map.
pub proof fn lemma_dict_view(m: ValueMap)
    ensures
        Value::Dict(m)@ == ValueView::Dict(m@),
{
}

/// A map as a value.
pub fn dict_value(m: ValueMap) -> (r: Value)
    ensures
        r@ == ValueView::Dict(m@),
{
    Value::Dict(m)
}

impl Clone for ValueMap {
    fn clone(&self) -> (r: ValueMap)
        ensures
            r@ == self@,
    {
        self.deep_clone()
    }
}

impl Clone for Value {
    fn clone(&self) -> (r: Value)
        ensures
            r@ == self@,
    {
        self.deep_clone()
    }
}

impl View for ValueMap {
    type V = Map<Seq<char>, ValueView>;

    closed spec fn view(&self) -> Map<Seq<char>, ValueView> {
        kv_map(self.keys@, self.vals@)
    }
}

fn clone_bytes(v: &Vec<u8>) -> (r: Vec<u8>)
    ensures
        r@ == v@,
{
    let mut out: Vec<u8> = Vec::new();
    let mut i: usize = 0;
    while i < v.len()
        invariant
            i <= v@.len(),
            out@ == v@.take(i as int),
        decreases v@.len() - i,
    {
        out.push(v[i]);
        assert(out@ =~= v@.take(i + 1));
        i = i + 1;
    }
    assert(out@ =~= v@);
    out
}

impl OneBotBytes {
    /// A copy of the bytes.
    pub fn deep_clone(&self) -> (r: OneBotBytes)
        ensures
            r.0@ == self.0@,
    {
        OneBotBytes(clone_bytes(&self.0))
    }
}

impl Value {
    /// A copy of the value, with the same model.
    pub fn deep_clone(&self) -> (r: Value)
        ensures
            r@ == self@,
        decreases self,
    {
        match self {
            Value::Str(s) => {
                let r = Value::Str(s.clone());
                assert(r@ == self@);
                r
            },
            Value::F64(f) => Value::F64(*f),
            Value::Int(i) => Value::Int(*i),
            Value::Bool(b) => Value::Bool(*b),
            Value::Dict(m) => {
                let c = m.deep_clone();
                assert(c@ == m@);
                let r = Value::Dict(c);
                assert(r@ == self@);
                r
            },
            Value::List(l) => {
                let n = l.len();
                let mut out: Vec<Value> = Vec::new();
                let mut i: usize = 0;
                while i < n
                    invariant
                        n == l@.len(),
                        i <= n,
                        out@.len() == i,
                        *self == Value::List(*l),
                        forall|j: int| 0 <= j < i ==> #[trigger] out@[j]@ == l@[j]@,
                    decreases n - i,
                {
                    assert(decreases_to!(*self => self->List_0));
                    assert(self->List_0 == *l);
                    assert(decreases_to!(*l => l@));
                    assert(decreases_to!(l@ => l@[i as int]));
                    assert(decreases_to!(*self => l@[i as int]));
                    let v = l[i].deep_clone();
                    out.push(v);
                    i = i + 1;
                }
                let ghost out_s = out@;
                let r = Value::List(out);
                proof {
                    let a = r@->List_0;
                    let b = self@->List_0;
                    assert(a.len() == b.len());
                    assert forall|j: int| 0 <= j < a.len() implies a[j] == b[j] by {
                        assert(a[j] == out_s[j]@);
                        assert(b[j] == l@[j]@);
                    }
                    assert(a =~= b);
                }
                r
            },
            Value::Bytes(b) => Value::Bytes(b.deep_clone()),
            Value::Null => Value::Null,
        }
    }
}


/// `open`, `x` and `close` one after the other.
pub open spec fn framed(open: Seq<char>, x: Seq<char>, close: Seq<char>) -> Seq<char> {
    open + x + close
}

/// The bytes in decimal, between brackets and separated by `", "`.
pub open spec fn bytes_text(b: Seq<u8>) -> Seq<char> {
    "["@ + comma_join(Seq::new(b.len(), |i: int| decimal(b[i] as nat))) + "]"@
}

/// The entries of a map as `Debug` shows them between braces: each key's
/// text, `": "` and the text `ts[i]` of its value, in the order of `ks`,
/// separated by `", "`.
pub open spec fn entries_text(ks: Seq<Seq<char>>, ts: Seq<Seq<char>>) -> Seq<char> {
    comma_join(Seq::new(ks.len(), |i: int| spec_str_debug(ks[i]) + ": "@ + ts[i]))
}

/// Whether `t` is the `Debug` text of a value with model `v`, as error
/// messages report it: the variant's name and its content between
/// parentheses, strings as `Debug` shows them, lists item by item, maps
/// entry by entry, each key once, in some order (the model fixes none).
/// The digits of a float are not stated.
pub open spec fn debug_of(v: ValueView, t: Seq<char>) -> bool
    decreases v,
{
    match v {
        ValueView::Str(s) => t == "Str("@ + spec_str_debug(s) + ")"@,
        ValueView::F64(_) => exists|x: Seq<char>| t == #[trigger] framed("F64("@, x, ")"@),
        ValueView::Int(i) => t == "Int("@ + int_text(i as int) + ")"@,
        ValueView::Bool(b) => t == "Bool("@ + (if b { "true"@ } else { "false"@ }) + ")"@,
        ValueView::Dict(m) => exists|ks: Seq<Seq<char>>, ts: Seq<Seq<char>>|
            m.dom().finite()
            && ks.no_duplicates()
            && ks.len() == ts.len()
            && (forall|k: Seq<char>| m.dom().contains(k) ==> #[trigger] ks.contains(k))
            && (forall|i: int| 0 <= i < ks.len() ==> m.dom().contains(#[trigger] ks[i]) && debug_of(m[ks[i]], ts[i]))
            && t == framed("Map({"@, #[trigger] entries_text(ks, ts), "})"@),
        ValueView::List(l) => exists|ts: Seq<Seq<char>>|
            ts.len() == l.len()
            && (forall|i: int| 0 <= i < l.len() ==> debug_of(l[i], #[trigger] ts[i]))
            && t == "List(["@ + #[trigger] comma_join(ts) + "])"@,
        ValueView::Bytes(b) => t == "Bytes(OneBotBytes("@ + bytes_text(b) + "))"@,
        ValueView::Null => t == "Null"@,
    }
}

/// The error that reports a value of the wrong kind: the expected type
/// name and the `Debug` text of the value found.
pub open spec fn type_mismatch(e: WalleError, expected: Seq<char>, v: ValueView) -> bool {
    e matches WalleError::ValueTypeNotMatch(a, b) && a@ == expected && debug_of(v, b@)
}

/// What a base64 decoder gives for a text: the bytes, or `None` where
/// the text is not valid padded standard base64.
pub uninterp spec fn spec_base64_decode(s: Seq<char>) -> Option<Seq<u8>>;

/// Decodes standard padded base64.
///
/// Calls `base64::engine::general_purpose::STANDARD.decode`, the engine
/// that the crate's deprecated `base64::decode` uses.  The contract only
/// names its result: `None` where the crate reports a decode error.
#[verifier::external_body]
fn base64_decode(s: &str) -> (r: Option<Vec<u8>>)
    ensures
        match r {
            Some(b) => spec_base64_decode(s@) == Some(b@),
            None => spec_base64_decode(s@) is None,
        },
{
    base64::engine::general_purpose::STANDARD.decode(s).ok()
}

/// The bytes of a base64 text `s`, given what decoding it gave: the
/// decoded bytes, or an error that holds the text where it was not valid.
pub fn bytes_from_decoded(s: String, decoded: Option<Vec<u8>>) -> (r: WalleResult<OneBotBytes>)
    ensures
        match decoded {
            Some(b) => r matches Ok(x) && x.0@ == b@,
            None => r matches Err(WalleError::IllegalBase64(t)) && t@ == s@,
        },
{
    match decoded {
        Some(b) => Ok(OneBotBytes(b)),
        None => Err(WalleError::IllegalBase64(s)),
    }
}

/// Conversion of a dynamic value into a typed one.
pub trait TryFromValue: Sized {
    /// Whether the conversion of a value with model `v` succeeds.
    spec fn accepts(v: ValueView) -> bool;

    /// Whether `r` is the result of converting a value with model `v`.
    spec fn converted(v: ValueView, r: Self) -> bool;

    /// Whether `e` is the error of converting a value with model `v`.
    spec fn rejected(v: ValueView, e: WalleError) -> bool;

    /// The name of the target type in error messages.
    spec fn spec_target_name() -> Seq<char>;

    fn target_name() -> (r: String)
        ensures
            r@ == Self::spec_target_name(),
    ;

    fn try_from_value(v: Value) -> (r: WalleResult<Self>)
        ensures
            match r {
                Ok(x) => Self::accepts(v@) && Self::converted(v@, x),
                Err(e) => !Self::accepts(v@) && Self::rejected(v@, e),
            },
    ;
}

fn mismatch(expected: &str, v: &Value) -> (e: WalleError)
    ensures
        type_mismatch(e, expected@, v@),
{
    WalleError::ValueTypeNotMatch(expected.to_owned(), v.debug_text())
}

impl TryFromValue for String {
    open spec fn accepts(v: ValueView) -> bool {
        v is Str
    }

    open spec fn converted(v: ValueView, r: String) -> bool {
        v == ValueView::Str(r@)
    }

    open spec fn rejected(v: ValueView, e: WalleError) -> bool {
        type_mismatch(e, Self::spec_target_name(), v)
    }

    open spec fn spec_target_name() -> Seq<char> {
        "alloc::string::String"@
    }

    fn target_name() -> (r: String) {
        proof { reveal_strlit("alloc::string::String"); }
        "alloc::string::String".to_owned()
    }

    fn try_from_value(v: Value) -> (r: WalleResult<String>) {
        proof { reveal_strlit("alloc::string::String"); }
        match v {
            Value::Str(s) => Ok(s),
            other => Err(mismatch("alloc::string::String", &other)),
        }
    }
}

impl TryFromValue for i64 {
    open spec fn accepts(v: ValueView) -> bool {
        v is Int
    }

    open spec fn converted(v: ValueView, r: i64) -> bool {
        v == ValueView::Int(r)
    }

    open spec fn rejected(v: ValueView, e: WalleError) -> bool {
        type_mismatch(e, Self::spec_target_name(), v)
    }

    open spec fn spec_target_name() -> Seq<char> {
        "i64"@
    }

    fn target_name() -> (r: String) {
        proof { reveal_strlit("i64"); }
        "i64".to_owned()
    }

    fn try_from_value(v: Value) -> (r: WalleResult<i64>) {
        proof { reveal_strlit("i64"); }
        match v {
            Value::Int(i) => Ok(i),
            other => Err(mismatch("i64", &other)),
        }
    }
}

impl TryFromValue for i32 {
    open spec fn accepts(v: ValueView) -> bool {
        v is Int
    }

    open spec fn converted(v: ValueView, r: i32) -> bool {
        v matches ValueView::Int(i) && r == i as i32
    }

    open spec fn rejected(v: ValueView, e: WalleError) -> bool {
        type_mismatch(e, Self::spec_target_name(), v)
    }

    open spec fn spec_target_name() -> Seq<char> {
        "i32"@
    }

    fn target_name() -> (r: String) {
        proof { reveal_strlit("i32"); }
        "i32".to_owned()
    }

    fn try_from_value(v: Value) -> (r: WalleResult<i32>) {
        proof { reveal_strlit("i32"); }
        match v {
            Value::Int(i) => Ok(i as i32),
            other => Err(mismatch("i32", &other)),
        }
    }
}

impl TryFromValue for u32 {
    open spec fn accepts(v: ValueView) -> bool {
        v is Int
    }

    open spec fn converted(v: ValueView, r: u32) -> bool {
        v matches ValueView::Int(i) && r == i as u32
    }

    open spec fn rejected(v: ValueView, e: WalleError) -> bool {
        type_mismatch(e, Self::spec_target_name(), v)
    }

    open spec fn spec_target_name() -> Seq<char> {
        "u32"@
    }

    fn target_name() -> (r: String) {
        proof { reveal_strlit("u32"); }
        "u32".to_owned()
    }

    fn try_from_value(v: Value) -> (r: WalleResult<u32>) {
        proof { reveal_strlit("u32"); }
        match v {
            Value::Int(i) => Ok(i as u32),
            other => Err(mismatch("u32", &other)),
        }
    }
}

impl TryFromValue for i16 {
    open spec fn accepts(v: ValueView) -> bool {
        v is Int
    }

    open spec fn converted(v: ValueView, r: i16) -> bool {
        v matches ValueView::Int(i) && r == i as i16
    }

    open spec fn rejected(v: ValueView, e: WalleError) -> bool {
        type_mismatch(e, Self::spec_target_name(), v)
    }

    open spec fn spec_target_name() -> Seq<char> {
        "i16"@
    }

    fn target_name() -> (r: String) {
        proof { reveal_strlit("i16"); }
        "i16".to_owned()
    }

    fn try_from_value(v: Value) -> (r: WalleResult<i16>) {
        proof { reveal_strlit("i16"); }
        match v {
            Value::Int(i) => Ok(i as i16),
            other => Err(mismatch("i16", &other)),
        }
    }
}

impl TryFromValue for u16 {
    open spec fn accepts(v: ValueView) -> bool {
        v is Int
    }

    open spec fn converted(v: ValueView, r: u16) -> bool {
        v matches ValueView::Int(i) && r == i as u16
    }

    open spec fn rejected(v: ValueView, e: WalleError) -> bool {
        type_mismatch(e, Self::spec_target_name(), v)
    }

    open spec fn spec_target_name() -> Seq<char> {
        "u16"@
    }

    fn target_name() -> (r: String) {
        proof { reveal_strlit("u16"); }
        "u16".to_owned()
    }

    fn try_from_value(v: Value) -> (r: WalleResult<u16>) {
        proof { reveal_strlit("u16"); }
        match v {
            Value::Int(i) => Ok(i as u16),
            other => Err(mismatch("u16", &other)),
        }
    }
}

impl TryFromValue for i8 {
    open spec fn accepts(v: ValueView) -> bool {
        v is Int
    }

    open spec fn converted(v: ValueView, r: i8) -> bool {
        v matches ValueView::Int(i) && r == i as i8
    }

    open spec fn rejected(v: ValueView, e: WalleError) -> bool {
        type_mismatch(e, Self::spec_target_name(), v)
    }

    open spec fn spec_target_name() -> Seq<char> {
        "i8"@
    }

    fn target_name() -> (r: String) {
        proof { reveal_strlit("i8"); }
        "i8".to_owned()
    }

    fn try_from_value(v: Value) -> (r: WalleResult<i8>) {
        proof { reveal_strlit("i8"); }
        match v {
            Value::Int(i) => Ok(i as i8),
            other => Err(mismatch("i8", &other)),
        }
    }
}

impl TryFromValue for u8 {
    open spec fn accepts(v: ValueView) -> bool {
        v is Int
    }

    open spec fn converted(v: ValueView, r: u8) -> bool {
        v matches ValueView::Int(i) && r == i as u8
    }

    open spec fn rejected(v: ValueView, e: WalleError) -> bool {
        type_mismatch(e, Self::spec_target_name(), v)
    }

    open spec fn spec_target_name() -> Seq<char> {
        "u8"@
    }

    fn target_name() -> (r: String) {
        proof { reveal_strlit("u8"); }
        "u8".to_owned()
    }

    fn try_from_value(v: Value) -> (r: WalleResult<u8>) {
        proof { reveal_strlit("u8"); }
        match v {
            Value::Int(i) => Ok(i as u8),
            other => Err(mismatch("u8", &other)),
        }
    }
}

impl TryFromValue for Float64 {
    open spec fn accepts(v: ValueView) -> bool {
        v is F64
    }

    open spec fn converted(v: ValueView, r: Float64) -> bool {
        v == ValueView::F64(r.bits)
    }

    open spec fn rejected(v: ValueView, e: WalleError) -> bool {
        type_mismatch(e, Self::spec_target_name(), v)
    }

    open spec fn spec_target_name() -> Seq<char> {
        "f64"@
    }

    fn target_name() -> (r: String) {
        proof { reveal_strlit("f64"); }
        "f64".to_owned()
    }

    fn try_from_value(v: Value) -> (r: WalleResult<Float64>) {
        proof { reveal_strlit("f64"); }
        match v {
            Value::F64(f) => Ok(f),
            other => Err(mismatch("f64", &other)),
        }
    }
}

impl TryFromValue for bool {
    open spec fn accepts(v: ValueView) -> bool {
        v is Bool
    }

    open spec fn converted(v: ValueView, r: bool) -> bool {
        v == ValueView::Bool(r)
    }

    open spec fn rejected(v: ValueView, e: WalleError) -> bool {
        type_mismatch(e, Self::spec_target_name(), v)
    }

    open spec fn spec_target_name() -> Seq<char> {
        "bool"@
    }

    fn target_name() -> (r: String) {
        proof { reveal_strlit("bool"); }
        "bool".to_owned()
    }

    fn try_from_value(v: Value) -> (r: WalleResult<bool>) {
        proof { reveal_strlit("bool"); }
        match v {
            Value::Bool(b) => Ok(b),
            other => Err(mismatch("bool", &other)),
        }
    }
}

impl TryFromValue for OneBotBytes {
    /// Bytes are accepted as they are; a string is accepted where it is
    /// valid base64, and stands for the bytes it decodes to.
    open spec fn accepts(v: ValueView) -> bool {
        match v {
            ValueView::Bytes(_) => true,
            ValueView::Str(s) => spec_base64_decode(s) is Some,
            _ => false,
        }
    }

    open spec fn converted(v: ValueView, r: OneBotBytes) -> bool {
        match v {
            ValueView::Bytes(b) => r.0@ == b,
            ValueView::Str(s) => spec_base64_decode(s) == Some(r.0@),
            _ => false,
        }
    }

    open spec fn rejected(v: ValueView, e: WalleError) -> bool {
        match v {
            ValueView::Str(s) => e matches WalleError::IllegalBase64(t) && t@ == s,
            _ => type_mismatch(e, Self::spec_target_name(), v),
        }
    }

    open spec fn spec_target_name() -> Seq<char> {
        "bytes"@
    }

    fn target_name() -> (r: String) {
        proof { reveal_strlit("bytes"); }
        "bytes".to_owned()
    }

    fn try_from_value(v: Value) -> (r: WalleResult<OneBotBytes>) {
        proof { reveal_strlit("bytes"); }
        match v {
            Value::Bytes(b) => Ok(b),
            Value::Str(s) => {
                let decoded = base64_decode(s.as_str());
                bytes_from_decoded(s, decoded)
            },
            other => Err(mismatch("bytes", &other)),
        }
    }
}

impl TryFromValue for () {
    open spec fn accepts(v: ValueView) -> bool {
        true
    }

    open spec fn converted(v: ValueView, r: ()) -> bool {
        true
    }

    open spec fn rejected(v: ValueView, e: WalleError) -> bool {
        false
    }

    open spec fn spec_target_name() -> Seq<char> {
        "()"@
    }

    fn target_name() -> (r: String) {
        proof { reveal_strlit("()"); }
        "()".to_owned()
    }

    fn try_from_value(v: Value) -> (r: WalleResult<()>) {
        Ok(())
    }
}

impl TryFromValue for Value {
    open spec fn accepts(v: ValueView) -> bool {
        true
    }

    open spec fn converted(v: ValueView, r: Value) -> bool {
        r@ == v
    }

    open spec fn rejected(v: ValueView, e: WalleError) -> bool {
        false
    }

    open spec fn spec_target_name() -> Seq<char> {
        "walle_core::util::value::Value"@
    }

    fn target_name() -> (r: String) {
        proof { reveal_strlit("walle_core::util::value::Value"); }
        "walle_core::util::value::Value".to_owned()
    }

    fn try_from_value(v: Value) -> (r: WalleResult<Value>) {
        Ok(v)
    }
}

impl TryFromValue for ValueMap {
    open spec fn accepts(v: ValueView) -> bool {
        v is Dict
    }

    open spec fn converted(v: ValueView, r: ValueMap) -> bool {
        v == ValueView::Dict(r@)
    }

    open spec fn rejected(v: ValueView, e: WalleError) -> bool {
        type_mismatch(e, Self::spec_target_name(), v)
    }

    open spec fn spec_target_name() -> Seq<char> {
        "ExtendedMap"@
    }

    fn target_name() -> (r: String) {
        proof { reveal_strlit("ExtendedMap"); }
        "ExtendedMap".to_owned()
    }

    fn try_from_value(v: Value) -> (r: WalleResult<ValueMap>) {
        v.downcast_map()
    }
}

/// The index of the first element of `l` that `V` does not accept, if any.
pub open spec fn first_rejected<V: TryFromValue>(l: Seq<ValueView>, j: int) -> bool {
    0 <= j < l.len() && !V::accepts(l[j]) && forall|i: int| 0 <= i < j ==> #[trigger] V::accepts(l[i])
}

/// Whether every element of a list value is accepted by `V`.
pub open spec fn list_accepts<V: TryFromValue>(v: ValueView) -> bool {
    v matches ValueView::List(l) && forall|i: int| 0 <= i < l.len() ==> #[trigger] V::accepts(l[i])
}

/// Whether `r` holds the conversions of the elements of a list value.
pub open spec fn list_converted<V: TryFromValue>(v: ValueView, r: Seq<V>) -> bool {
    v matches ValueView::List(l) && r.len() == l.len()
        && forall|i: int| 0 <= i < l.len() ==> #[trigger] V::converted(l[i], r[i])
}

/// The error of converting a list value: that of its first rejected
/// element, or a type mismatch where the value is no list.
pub open spec fn list_rejected<V: TryFromValue>(v: ValueView, e: WalleError) -> bool {
    match v {
        ValueView::List(l) => exists|j: int| first_rejected::<V>(l, j) && #[trigger] V::rejected(l[j], e),
        _ => type_mismatch(e, "List<"@ + V::spec_target_name() + ">"@, v),
    }
}

/// Converts a list value element by element; the first element that `V`
/// rejects decides the error.
pub fn list_from_value<V: TryFromValue>(v: Value) -> (r: WalleResult<Vec<V>>)
ensures
    match r {
        Ok(x) => list_accepts::<V>(v@) && list_converted::<V>(v@, x@),
        Err(e) => !list_accepts::<V>(v@) && list_rejected::<V>(v@, e),
    },
{
    let ghost vv = v@;
    match v {
        Value::List(l) => {
            let ghost lv = vv->List_0;
            let mut l = l;
            let n = l.len();
            let mut out: Vec<V> = Vec::new();
            let mut i: usize = 0;
            assert(lv.len() == n);
            assert(vv == ValueView::List(lv));
            while i < n
                invariant
                    i <= n,
                    lv.len() == n,
                    l@.len() == n - i,
                    forall|j: int| 0 <= j < n - i ==> #[trigger] l@[j]@ == lv[i + j],
                    out@.len() == i,
                    vv == ValueView::List(lv),
                    vv == v@,
                    forall|j: int| 0 <= j < i ==> #[trigger] V::accepts(lv[j]),
                    forall|j: int| 0 <= j < i ==> #[trigger] V::converted(lv[j], out@[j]),
                decreases n - i,
            {
                let item = l.remove(0);
                assert(item@ == lv[i as int]);
                match V::try_from_value(item) {
                    Ok(x) => {
                        out.push(x);
                    },
                    Err(e) => {
                        proof {
                            assert(first_rejected::<V>(lv, i as int));
                            assert(V::rejected(lv[i as int], e));
                            assert(vv->List_0 == lv);
                            assert(list_rejected::<V>(vv, e));
                            assert(!list_accepts::<V>(vv));
                            assert(list_rejected::<V>(v@, e));
                            assert(!list_accepts::<V>(v@));
                        }
                        return Err(e);
                    },
                }
                i = i + 1;
            }
            Ok(out)
        },
        other => {
            proof { reveal_strlit("List<"); reveal_strlit(">"); }
            let mut name = "List<".to_owned();
            let inner = V::target_name();
            push_str(&mut name, inner.as_str());
            push_str(&mut name, ">");
            Err(WalleError::ValueTypeNotMatch(name, other.debug_text()))
        },
    }
}

impl TryFromValue for Vec<Value> {
    open spec fn accepts(v: ValueView) -> bool {
        list_accepts::<Value>(v)
    }

    open spec fn converted(v: ValueView, r: Vec<Value>) -> bool {
        list_converted::<Value>(v, r@)
    }

    open spec fn rejected(v: ValueView, e: WalleError) -> bool {
        list_rejected::<Value>(v, e)
    }

    open spec fn spec_target_name() -> Seq<char> {
        "alloc::vec::Vec<"@ + Value::spec_target_name() + ">"@
    }

    fn target_name() -> (r: String) {
        proof { reveal_strlit("alloc::vec::Vec<"); reveal_strlit(">"); reveal_strlit("walle_core::util::value::Value"); }
        let mut s = "alloc::vec::Vec<".to_owned();
        push_str(&mut s, "walle_core::util::value::Value");
        push_str(&mut s, ">");
        s
    }

    fn try_from_value(v: Value) -> (r: WalleResult<Vec<Value>>) {
        list_from_value::<Value>(v)
    }
}

impl TryFromValue for Vec<u8> {
    open spec fn accepts(v: ValueView) -> bool {
        list_accepts::<u8>(v)
    }

    open spec fn converted(v: ValueView, r: Vec<u8>) -> bool {
        list_converted::<u8>(v, r@)
    }

    open spec fn rejected(v: ValueView, e: WalleError) -> bool {
        list_rejected::<u8>(v, e)
    }

    open spec fn spec_target_name() -> Seq<char> {
        "alloc::vec::Vec<"@ + u8::spec_target_name() + ">"@
    }

    fn target_name() -> (r: String) {
        proof { reveal_strlit("alloc::vec::Vec<"); reveal_strlit(">"); reveal_strlit("u8"); }
        let mut s = "alloc::vec::Vec<".to_owned();
        push_str(&mut s, "u8");
        push_str(&mut s, ">");
        s
    }

    fn try_from_value(v: Value) -> (r: WalleResult<Vec<u8>>) {
        list_from_value::<u8>(v)
    }
}

impl Value {
    /// The `Debug` text of the value, as error messages show it; the
    /// entries of a map come in storage order, and a float shows its bit
    /// pattern in decimal.
    pub fn debug_text(&self) -> (r: String)
        ensures
            debug_of(self@, r@),
        decreases self,
    {
        proof {
            reveal_strlit("Str("); reveal_strlit(")"); reveal_strlit("F64("); reveal_strlit("Int(");
            reveal_strlit("Bool("); reveal_strlit("true"); reveal_strlit("false"); reveal_strlit("Map({");
            reveal_strlit("})"); reveal_strlit("List(["); reveal_strlit("])"); reveal_strlit("Bytes(OneBotBytes(");
            reveal_strlit("))"); reveal_strlit("Null"); reveal_strlit("["); reveal_strlit("]");
        }
        match self {
            Value::Str(s) => {
                let mut out = "Str(".to_owned();
                let d = str_debug(s.as_str());
                push_str(&mut out, d.as_str());
                push_str(&mut out, ")");
                assert(out@ =~= "Str("@ + spec_str_debug(s@) + ")"@);
                out
            },
            Value::F64(f) => {
                let mut out = "F64(".to_owned();
                push_decimal(&mut out, f.bits as u128);
                push_str(&mut out, ")");
                assert(out@ =~= framed("F64("@, decimal(f.bits as nat), ")"@));
                out
            },
            Value::Int(i) => {
                let mut out = "Int(".to_owned();
                push_int(&mut out, *i);
                push_str(&mut out, ")");
                assert(out@ =~= "Int("@ + int_text(*i as int) + ")"@);
                out
            },
            Value::Bool(b) => {
                let mut out = "Bool(".to_owned();
                if *b {
                    push_str(&mut out, "true");
                } else {
                    push_str(&mut out, "false");
                }
                push_str(&mut out, ")");
                assert(out@ =~= "Bool("@ + (if *b { "true"@ } else { "false"@ }) + ")"@);
                out
            },
            Value::Dict(m) => {
                let mut out = "Map({".to_owned();
                let inner = m.debug_entries();
                push_str(&mut out, inner.as_str());
                push_str(&mut out, "})");
                proof {
                    use_type_invariant(m);
                    let ks = m.key_views();
                    let ts = choose|ts: Seq<Seq<char>>|
                        ts.len() == m.spec_keys().len()
                        && (forall|i: int| 0 <= i < ts.len() ==> debug_of(m.spec_vals()[i]@, #[trigger] ts[i]))
                        && inner@ == #[trigger] entries_text(m.key_views(), ts);
                    let mv = m@;
                    lemma_len(m.keys@, m.vals@);
                    assert(ks.no_duplicates()) by {
                        assert forall|a: int, b: int| 0 <= a < ks.len() && 0 <= b < ks.len() && a != b implies ks[a] != ks[b] by {
                            assert(ks[a] == m.keys@[a]@);
                            assert(ks[b] == m.keys@[b]@);
                        }
                    }
                    assert forall|k: Seq<char>| mv.dom().contains(k) implies #[trigger] ks.contains(k) by {
                        let j = choose|j: int| 0 <= j < m.keys@.len() && #[trigger] m.keys@[j]@ == k;
                        assert(ks[j] == k);
                    }
                    assert forall|i: int| 0 <= i < ks.len() implies mv.dom().contains(#[trigger] ks[i]) && debug_of(mv[ks[i]], ts[i]) by {
                        lemma_entry(m.keys@, m.vals@, i);
                        assert(ks[i] == m.keys@[i]@);
                    }
                    assert(out@ =~= framed("Map({"@, entries_text(ks, ts), "})"@));
                    assert(self@ == ValueView::Dict(mv));
                }
                out
            },
            Value::List(l) => {
                let n = l.len();
                let mut body = String::new();
                let ghost mut ts: Seq<Seq<char>> = Seq::empty();
                let mut i: usize = 0;
                while i < n
                    invariant
                        n == l@.len(),
                        i <= n,
                        ts.len() == i,
                        *self == Value::List(*l),
                        body@ == comma_join(ts),
                        forall|j: int| 0 <= j < i ==> debug_of(l@[j]@, #[trigger] ts[j]),
                    decreases n - i,
                {
                    assert(decreases_to!(*self => self->List_0));
                    assert(self->List_0 == *l);
                    assert(decreases_to!(*l => l@));
                    assert(decreases_to!(l@ => l@[i as int]));
                    assert(decreases_to!(*self => l@[i as int]));
                    let t = l[i].debug_text();
                    push_joined(&mut body, Ghost(ts), i == 0, t.as_str());
                    proof { ts = ts.push(t@); }
                    i = i + 1;
                }
                let mut out = "List([".to_owned();
                push_str(&mut out, body.as_str());
                push_str(&mut out, "])");
                proof {
                    let lv = self@->List_0;
                    assert(lv.len() == ts.len());
                    assert forall|j: int| 0 <= j < lv.len() implies debug_of(lv[j], #[trigger] ts[j]) by {
                        assert(lv[j] == l@[j]@);
                    }
                    assert(out@ =~= "List(["@ + comma_join(ts) + "])"@);
                }
                out
            },
            Value::Bytes(b) => {
                let n = b.0.len();
                let mut body = String::new();
                let ghost bs = b.0@;
                let ghost ds = Seq::new(bs.len(), |k: int| decimal(bs[k] as nat));
                let mut i: usize = 0;
                while i < n
                    invariant
                        n == bs.len(),
                        bs == b.0@,
                        ds == Seq::new(bs.len(), |k: int| decimal(bs[k] as nat)),
                        i <= n,
                        body@ == comma_join(ds.take(i as int)),
                    decreases n - i,
                {
                    let d = decimal_string(b.0[i] as u128);
                    assert(ds.take(i as int + 1) =~= ds.take(i as int).push(d@));
                    push_joined(&mut body, Ghost(ds.take(i as int)), i == 0, d.as_str());
                    i = i + 1;
                }
                assert(ds.take(n as int) =~= ds);
                let mut out = "Bytes(OneBotBytes([".to_owned();
                push_str(&mut out, body.as_str());
                push_str(&mut out, "]))");
                proof { reveal_strlit("Bytes(OneBotBytes(["); reveal_strlit("]))"); }
                assert(out@ =~= "Bytes(OneBotBytes("@ + bytes_text(bs) + "))"@);
                out
            },
            Value::Null => "Null".to_owned(),
        }
    }

    /// Converts the value into `T`.
    pub fn downcast<T: TryFromValue>(self) -> (r: WalleResult<T>)
        ensures
            match r {
                Ok(x) => T::accepts(self@) && T::converted(self@, x),
                Err(e) => !T::accepts(self@) && T::rejected(self@, e),
            },
    {
        T::try_from_value(self)
    }

    /// The string held by a `Str` value.
    pub fn downcast_str(self) -> (r: WalleResult<String>)
        ensures
            match r {
                Ok(x) => self@ == ValueView::Str(x@),
                Err(e) => !(self@ is Str) && type_mismatch(e, "alloc::string::String"@, self@),
            },
    {
        self.downcast::<String>()
    }

    /// The integer held by an `Int` value.
    pub fn downcast_int(self) -> (r: WalleResult<i64>)
        ensures
            match r {
                Ok(x) => self@ == ValueView::Int(x),
                Err(e) => !(self@ is Int) && type_mismatch(e, "i64"@, self@),
            },
    {
        self.downcast::<i64>()
    }

    /// The float held by an `F64` value.
    pub fn downcast_f64(self) -> (r: WalleResult<Float64>)
        ensures
            match r {
                Ok(x) => self@ == ValueView::F64(x.bits),
                Err(e) => !(self@ is F64) && type_mismatch(e, "f64"@, self@),
            },
    {
        self.downcast::<Float64>()
    }

    /// The boolean held by a `Bool` value.
    pub fn downcast_bool(self) -> (r: WalleResult<bool>)
        ensures
            match r {
                Ok(x) => self@ == ValueView::Bool(x),
                Err(e) => !(self@ is Bool) && type_mismatch(e, "bool"@, self@),
            },
    {
        self.downcast::<bool>()
    }

    /// The bytes held by a `Bytes` value, or decoded from the base64 text
    /// of a `Str` value.
    pub fn downcast_bytes(self) -> (r: WalleResult<OneBotBytes>)
        ensures
            match r {
                Ok(x) => OneBotBytes::accepts(self@) && OneBotBytes::converted(self@, x),
                Err(e) => !OneBotBytes::accepts(self@) && OneBotBytes::rejected(self@, e),
            },
    {
        self.downcast::<OneBotBytes>()
    }

    /// The map held by a `Map` value.
    pub fn downcast_map(self) -> (r: WalleResult<ValueMap>)
        ensures
            match r {
                Ok(x) => self@ == ValueView::Dict(x@),
                Err(e) => !(self@ is Dict) && type_mismatch(e, "ExtendedMap"@, self@),
            },
    {
        proof { reveal_strlit("ExtendedMap"); }
        let ghost vv = self@;
        match self {
            Value::Dict(m) => {
                assert(m@ == kv_map(m.spec_keys(), m.spec_vals()));
                Ok(m)
            },
            other => Err(mismatch("ExtendedMap", &other)),
        }
    }

    /// The list held by a `List` value.
    pub fn downcast_list(self) -> (r: WalleResult<Vec<Value>>)
        ensures
            match r {
                Ok(x) => self@ is List && self@->List_0.len() == x@.len()
                    && forall|i: int| 0 <= i < x@.len() ==> #[trigger] x@[i]@ == self@->List_0[i],
                Err(e) => !(self@ is List) && type_mismatch(e, "ExtendedList"@, self@),
            },
    {
        proof { reveal_strlit("ExtendedList"); }
        match self {
            Value::List(l) => Ok(l),
            other => Err(mismatch("ExtendedList", &other)),
        }
    }

    /// The string of a `Str` value.
    pub fn as_str(&self) -> (r: Option<&str>)
        ensures
            r is Some == self@ is Str,
            r matches Some(s) ==> self@ == ValueView::Str(s@),
    {
        match self {
            Value::Str(s) => Some(s.as_str()),
            _ => None,
        }
    }

    /// The float of an `F64` value.
    pub fn as_f64(&self) -> (r: Option<Float64>)
        ensures
            r is Some == self@ is F64,
            r matches Some(f) ==> self@ == ValueView::F64(f.bits),
    {
        match self {
            Value::F64(f) => Some(*f),
            _ => None,
        }
    }

    /// The integer of an `Int` value.
    pub fn as_i64(&self) -> (r: Option<i64>)
        ensures
            r is Some == self@ is Int,
            r matches Some(i) ==> self@ == ValueView::Int(i),
    {
        match self {
            Value::Int(i) => Some(*i),
            _ => None,
        }
    }

    /// The boolean of a `Bool` value.
    pub fn as_bool(&self) -> (r: Option<bool>)
        ensures
            r is Some == self@ is Bool,
            r matches Some(b) ==> self@ == ValueView::Bool(b),
    {
        match self {
            Value::Bool(b) => Some(*b),
            _ => None,
        }
    }

    /// The bytes of a `Bytes` value.
    pub fn as_bytes(&self) -> (r: Option<&[u8]>)
        ensures
            r is Some == self@ is Bytes,
            r matches Some(b) ==> self@ == ValueView::Bytes(b@),
    {
        match self {
            Value::Bytes(b) => Some(b.0.as_slice()),
            _ => None,
        }
    }

    /// The map of a `Map` value.
    pub fn as_map(&self) -> (r: Option<&ValueMap>)
        ensures
            r is Some == self@ is Dict,
            r matches Some(m) ==> self@ == ValueView::Dict(m@),
    {
        match self {
            Value::Dict(m) => Some(m),
            _ => None,
        }
    }

    /// The list of a `List` value.
    pub fn as_list(&self) -> (r: Option<&Vec<Value>>)
        ensures
            r is Some == self@ is List,
            r matches Some(l) ==> self@->List_0.len() == l@.len()
                && forall|i: int| 0 <= i < l@.len() ==> #[trigger] l@[i]@ == self@->List_0[i],
    {
        match self {
            Value::List(l) => Some(l),
            _ => None,
        }
    }

    pub fn is_str(&self) -> (r: bool)
        ensures
            r == self@ is Str,
    {
        matches!(self, Value::Str(_))
    }

    pub fn is_f64(&self) -> (r: bool)
        ensures
            r == self@ is F64,
    {
        matches!(self, Value::F64(_))
    }

    pub fn is_int(&self) -> (r: bool)
        ensures
            r == self@ is Int,
    {
        matches!(self, Value::Int(_))
    }

    pub fn is_bool(&self) -> (r: bool)
        ensures
            r == self@ is Bool,
    {
        matches!(self, Value::Bool(_))
    }

    pub fn is_bytes(&self) -> (r: bool)
        ensures
            r == self@ is Bytes,
    {
        matches!(self, Value::Bytes(_))
    }

    pub fn is_map(&self) -> (r: bool)
        ensures
            r == self@ is Dict,
    {
        matches!(self, Value::Dict(_))
    }

    pub fn is_list(&self) -> (r: bool)
        ensures
            r == self@ is List,
    {
        matches!(self, Value::List(_))
    }

    pub fn is_null(&self) -> (r: bool)
        ensures
            r == self@ is Null,
    {
        matches!(self, Value::Null)
    }
}


/// `e` reports that a value could not be converted into the type named
/// `target`, with the text of the conversion's own error `inner`.
pub open spec fn wrapped_error(e: WalleError, target: Seq<char>, inner: WalleError) -> bool {
    e matches WalleError::ValueTypeNotMatch(a, b) && a@ == target && b@ == crate::error::error_text(inner)
}

/// Whether `e` is the error of reading a present, non-null value `v`
/// from a map as a `T`.
pub open spec fn field_rejected<T: TryFromValue>(v: ValueView, e: WalleError) -> bool {
    exists|inner: WalleError| T::rejected(v, inner) && #[trigger] wrapped_error(e, T::spec_target_name(), inner)
}

/// The key is absent, or holds `Null`: the map has no value for it.
pub open spec fn no_value(m: Map<Seq<char>, ValueView>, k: Seq<char>) -> bool {
    !m.contains_key(k) || m[k] is Null
}

/// The map has a value under `k` that `T` accepts.
pub open spec fn field_accepts<T: TryFromValue>(m: Map<Seq<char>, ValueView>, k: Seq<char>) -> bool {
    !no_value(m, k) && T::accepts(m[k])
}

/// `x` is what `T` makes of the value under `k`.
pub open spec fn field_ok<T: TryFromValue>(m: Map<Seq<char>, ValueView>, k: Seq<char>, x: T) -> bool {
    !no_value(m, k) && T::accepts(m[k]) && T::converted(m[k], x)
}

/// `e` is the error of reading the value under `k` as a `T`: a missing
/// key where there is no value, else the conversion's error.
pub open spec fn field_fails<T: TryFromValue>(m: Map<Seq<char>, ValueView>, k: Seq<char>, e: WalleError) -> bool {
    if no_value(m, k) {
        missed_key(e, k)
    } else {
        field_rejected::<T>(m[k], e)
    }
}

/// An optional field is absent, null, or accepted by `T`.
pub open spec fn opt_field_accepts<T: TryFromValue>(m: Map<Seq<char>, ValueView>, k: Seq<char>) -> bool {
    no_value(m, k) || T::accepts(m[k])
}

/// `x` is what an optional field under `k` reads as: `None` where there
/// is no value, else what `T` makes of it.
pub open spec fn opt_field_ok<T: TryFromValue>(m: Map<Seq<char>, ValueView>, k: Seq<char>, x: Option<T>) -> bool {
    if no_value(m, k) {
        x is None
    } else {
        x matches Some(y) && T::accepts(m[k]) && T::converted(m[k], y)
    }
}

/// `e` is the error of reading an optional field under `k` as a `T`.
pub open spec fn opt_field_fails<T: TryFromValue>(m: Map<Seq<char>, ValueView>, k: Seq<char>, e: WalleError) -> bool {
    field_rejected::<T>(m[k], e)
}

/// `e` reports a value of another kind than the declared one.
pub open spec fn declare_mismatch(e: WalleError, declared: Seq<char>, found: Seq<char>) -> bool {
    e matches WalleError::DeclareNotMatch(a, b) && a@ == declared && b@ == found
}

/// The error that reports a value found where `declared` was expected,
/// showing the value's `Debug` text.
pub open spec fn declare_mismatch_value(e: WalleError, declared: Seq<char>, v: ValueView) -> bool {
    e matches WalleError::DeclareNotMatch(a, b) && a@ == declared && debug_of(v, b@)
}

/// Types whose values can be pushed, field by field, into a value map.
pub trait PushToValueMap: Sized {
    /// The map `m` after `self` is pushed into it.
    spec fn pushed(self, m: Map<Seq<char>, ValueView>) -> Map<Seq<char>, ValueView>;

    /// Pushes the fields of `self` into `map`.
    fn push_to(self, map: &mut ValueMap)
        ensures
            final(map)@ == self.pushed(old(map)@),
    ;
}

/// The error that reports a missing key.
pub open spec fn missed_key(e: WalleError, k: Seq<char>) -> bool {
    e matches WalleError::MapMissedKey(a) && a@ == k
}

fn convert_field<T: TryFromValue>(v: Value) -> (r: WalleResult<T>)
    ensures
        match r {
            Ok(x) => T::accepts(v@) && T::converted(v@, x),
            Err(e) => !T::accepts(v@) && field_rejected::<T>(v@, e),
        },
{
    let ghost vv = v@;
    match T::try_from_value(v) {
        Ok(x) => Ok(x),
        Err(inner) => {
            let msg = inner.describe();
            let e = WalleError::ValueTypeNotMatch(T::target_name(), msg);
            assert(wrapped_error(e, T::spec_target_name(), inner));
            Err(e)
        },
    }
}


/// What converting the value under `k` of the map `m` into `T` gives
/// where an absent or `Null` value gives `None`.
pub open spec fn try_downcast_outcome<T: TryFromValue>(
    m: Map<Seq<char>, ValueView>,
    k: Seq<char>,
    r: WalleResult<Option<T>>,
) -> bool {
    match r {
        Ok(None) => no_value(m, k),
        Ok(Some(x)) => !no_value(m, k) && T::accepts(m[k]) && T::converted(m[k], x),
        Err(e) => !no_value(m, k) && !T::accepts(m[k]) && field_rejected::<T>(m[k], e),
    }
}

/// What converting the value under `k` of the map `m` into `T` gives
/// where an absent or `Null` value is a missing key.
pub open spec fn downcast_outcome<T: TryFromValue>(
    m: Map<Seq<char>, ValueView>,
    k: Seq<char>,
    r: WalleResult<T>,
) -> bool {
    match r {
        Ok(x) => !no_value(m, k) && T::accepts(m[k]) && T::converted(m[k], x),
        Err(e) => if no_value(m, k) {
            missed_key(e, k)
        } else {
            !T::accepts(m[k]) && field_rejected::<T>(m[k], e)
        },
    }
}

/// Reading a converted copy of a field agrees with removing and
/// converting it: both give `None` (or a missing key) on the same maps,
/// succeed on the same maps with a value converted from the field, and
/// otherwise fail with a `ValueTypeNotMatch` naming the same target type.
pub proof fn law_get_downcast_agrees_with_remove<T: TryFromValue>(
    m: Map<Seq<char>, ValueView>,
    k: Seq<char>,
    got: WalleResult<Option<T>>,
    removed: WalleResult<Option<T>>,
    got_one: WalleResult<T>,
    removed_one: WalleResult<T>,
)
    requires
        try_downcast_outcome::<T>(m, k, got),
        try_downcast_outcome::<T>(m, k, removed),
        downcast_outcome::<T>(m, k, got_one),
        downcast_outcome::<T>(m, k, removed_one),
    ensures
        (got matches Ok(None)) == (removed matches Ok(None)),
        (got matches Ok(Some(_))) == (removed matches Ok(Some(_))),
        got is Err == removed is Err,
        got matches Ok(Some(x)) ==> T::converted(m[k], x),
        removed matches Ok(Some(x)) ==> T::converted(m[k], x),
        got matches Err(e) ==> (e matches WalleError::ValueTypeNotMatch(a, _) && a@ == T::spec_target_name()),
        removed matches Err(e) ==> (e matches WalleError::ValueTypeNotMatch(a, _) && a@ == T::spec_target_name()),
        got_one is Ok == removed_one is Ok,
        got_one matches Ok(x) ==> T::converted(m[k], x),
        removed_one matches Ok(x) ==> T::converted(m[k], x),
        no_value(m, k) ==> (got_one matches Err(e) && missed_key(e, k)),
        no_value(m, k) ==> (removed_one matches Err(e) && missed_key(e, k)),
        !no_value(m, k) ==> (got_one matches Err(e)
            ==> (e matches WalleError::ValueTypeNotMatch(a, _) && a@ == T::spec_target_name())),
        !no_value(m, k) ==> (removed_one matches Err(e)
            ==> (e matches WalleError::ValueTypeNotMatch(a, _) && a@ == T::spec_target_name())),
{
}

impl ValueMap {
    /// Pushes the fields of `value` into the map.
    pub fn push<T: PushToValueMap>(&mut self, value: T)
        ensures
            final(self)@ == value.pushed(old(self)@),
    {
        value.push_to(self)
    }

    /// Removes `key` and converts its value into `T`: `None` where the
    /// key is absent or holds `Null`.
    pub fn try_remove_downcast<T: TryFromValue>(&mut self, key: &str) -> (r: WalleResult<Option<T>>)
        ensures
            final(self)@ == old(self)@.remove(key@),
            try_downcast_outcome::<T>(old(self)@, key@, r),
    {
        match self.remove(key) {
            None => Ok(None),
            Some(Value::Null) => Ok(None),
            Some(v) => match convert_field::<T>(v) {
                Ok(x) => Ok(Some(x)),
                Err(e) => Err(e),
            },
        }
    }

    /// Removes `key` and converts its value into `T`; an absent or `Null`
    /// value is reported as a missing key.
    pub fn remove_downcast<T: TryFromValue>(&mut self, key: &str) -> (r: WalleResult<T>)
        ensures
            final(self)@ == old(self)@.remove(key@),
            downcast_outcome::<T>(old(self)@, key@, r),
    {
        match self.try_remove_downcast::<T>(key) {
            Ok(Some(x)) => Ok(x),
            Ok(None) => Err(WalleError::MapMissedKey(key.to_owned())),
            Err(e) => Err(e),
        }
    }

    /// Converts a copy of the value under `key` into `T`: `None` where the
    /// key is absent or holds `Null`.
    pub fn try_get_downcast<T: TryFromValue>(&self, key: &str) -> (r: WalleResult<Option<T>>)
        ensures
            try_downcast_outcome::<T>(self@, key@, r),
    {
        match self.get(key) {
            None => Ok(None),
            Some(v) => {
                if v.is_null() {
                    Ok(None)
                } else {
                    match convert_field::<T>(v.deep_clone()) {
                        Ok(x) => Ok(Some(x)),
                        Err(e) => Err(e),
                    }
                }
            },
        }
    }

    /// Converts a copy of the value under `key` into `T`; an absent or
    /// `Null` value is reported as a missing key.
    pub fn get_downcast<T: TryFromValue>(&self, key: &str) -> (r: WalleResult<T>)
        ensures
            downcast_outcome::<T>(self@, key@, r),
    {
        match self.try_get_downcast::<T>(key) {
            Ok(Some(x)) => Ok(x),
            Ok(None) => Err(WalleError::MapMissedKey(key.to_owned())),
            Err(e) => Err(e),
        }
    }

    /// The string under `key`.
    pub fn try_get_str(&self, key: &str) -> (r: WalleResult<&str>)
        ensures
            match r {
                Ok(s) => self@.contains_key(key@) && self@[key@] == ValueView::Str(s@),
                Err(e) => if !self@.contains_key(key@) {
                    missed_key(e, key@)
                } else {
                    !(self@[key@] is Str) && type_mismatch(e, "str"@, self@[key@])
                },
            },
    {
        match self.get(key) {
            Some(v) => v.try_as_str(),
            None => Err(WalleError::MapMissedKey(key.to_owned())),
        }
    }

    /// The map under `key`.
    pub fn try_get_map(&self, key: &str) -> (r: WalleResult<&ValueMap>)
        ensures
            match r {
                Ok(m) => self@.contains_key(key@) && self@[key@] == ValueView::Dict(m@),
                Err(e) => if !self@.contains_key(key@) {
                    missed_key(e, key@)
                } else {
                    !(self@[key@] is Dict) && type_mismatch(e, "map"@, self@[key@])
                },
            },
    {
        match self.get(key) {
            Some(v) => v.try_as_map(),
            None => Err(WalleError::MapMissedKey(key.to_owned())),
        }
    }

    /// The float under `key`.
    pub fn try_get_f64(&self, key: &str) -> (r: WalleResult<Float64>)
        ensures
            match r {
                Ok(f) => self@.contains_key(key@) && self@[key@] == ValueView::F64(f.bits),
                Err(e) => if !self@.contains_key(key@) {
                    missed_key(e, key@)
                } else {
                    !(self@[key@] is F64) && type_mismatch(e, "f64"@, self@[key@])
                },
            },
    {
        match self.get(key) {
            Some(v) => v.try_as_f64(),
            None => Err(WalleError::MapMissedKey(key.to_owned())),
        }
    }
}

impl Value {
    /// The string of a `Str` value.
    pub fn try_as_str(&self) -> (r: WalleResult<&str>)
        ensures
            match r {
                Ok(s) => self@ == ValueView::Str(s@),
                Err(e) => !(self@ is Str) && type_mismatch(e, "str"@, self@),
            },
    {
        proof { reveal_strlit("str"); }
        match self {
            Value::Str(s) => Ok(s.as_str()),
            _ => Err(mismatch("str", self)),
        }
    }

    /// The map of a `Map` value.
    pub fn try_as_map(&self) -> (r: WalleResult<&ValueMap>)
        ensures
            match r {
                Ok(m) => self@ == ValueView::Dict(m@),
                Err(e) => !(self@ is Dict) && type_mismatch(e, "map"@, self@),
            },
    {
        proof { reveal_strlit("map"); }
        match self {
            Value::Dict(m) => Ok(m),
            _ => Err(mismatch("map", self)),
        }
    }

    /// The float of an `F64` value.
    pub fn try_as_f64(&self) -> (r: WalleResult<Float64>)
        ensures
            match r {
                Ok(f) => self@ == ValueView::F64(f.bits),
                Err(e) => !(self@ is F64) && type_mismatch(e, "f64"@, self@),
            },
    {
        proof { reveal_strlit("f64"); }
        match self {
            Value::F64(f) => Ok(*f),
            _ => Err(mismatch("f64", self)),
        }
    }
}


impl Value {
    /// The string of a `Str` value, to change in place.
    pub fn as_str_mut(&mut self) -> (r: Option<&mut String>)
        ensures
            r is Some == old(self)@ is Str,
            r matches Some(x) ==> old(self)@ == ValueView::Str((*x)@) && final(self)@ == ValueView::Str(final(x)@),
            r is None ==> final(self)@ == old(self)@,
    {
        match self {
            Value::Str(x) => Some(x),
            _ => None,
        }
    }

    /// The float of an `F64` value, to change in place.
    pub fn as_f64_mut(&mut self) -> (r: Option<&mut Float64>)
        ensures
            r is Some == old(self)@ is F64,
            r matches Some(x) ==> old(self)@ == ValueView::F64((*x).bits) && final(self)@ == ValueView::F64(final(x).bits),
            r is None ==> final(self)@ == old(self)@,
    {
        match self {
            Value::F64(x) => Some(x),
            _ => None,
        }
    }

    /// The boolean of a `Bool` value, to change in place.
    pub fn as_bool_mut(&mut self) -> (r: Option<&mut bool>)
        ensures
            r is Some == old(self)@ is Bool,
            r matches Some(x) ==> old(self)@ == ValueView::Bool(*x) && final(self)@ == ValueView::Bool(*final(x)),
            r is None ==> final(self)@ == old(self)@,
    {
        match self {
            Value::Bool(x) => Some(x),
            _ => None,
        }
    }

    /// The map of a `Map` value, to change in place.
    pub fn as_map_mut(&mut self) -> (r: Option<&mut ValueMap>)
        ensures
            r is Some == old(self)@ is Dict,
            r matches Some(x) ==> old(self)@ == ValueView::Dict((*x)@) && final(self)@ == ValueView::Dict(final(x)@),
            r is None ==> final(self)@ == old(self)@,
    {
        match self {
            Value::Dict(x) => Some(x),
            _ => None,
        }
    }

    /// The list of a `List` value, to change in place.
    pub fn as_list_mut(&mut self) -> (r: Option<&mut Vec<Value>>)
        ensures
            r is Some == old(self)@ is List,
            r matches Some(x) ==> *old(self) == Value::List(*x) && final(self)@ == Value::List(*final(x))@,
            r is None ==> final(self)@ == old(self)@,
    {
        match self {
            Value::List(x) => Some(x),
            _ => None,
        }
    }

    /// The bytes of a `Bytes` value, to change in place.
    pub fn as_bytes_mut(&mut self) -> (r: Option<&mut Vec<u8>>)
        ensures
            r is Some == old(self)@ is Bytes,
            r matches Some(x) ==> old(self)@ == ValueView::Bytes((*x)@) && final(self)@ == ValueView::Bytes(final(x)@),
            r is None ==> final(self)@ == old(self)@,
    {
        match self {
            Value::Bytes(x) => Some(&mut x.0),
            _ => None,
        }
    }

    /// The integer of an `Int` value, to change in place.
    pub fn as_i64_mut(&mut self) -> (r: Option<&mut i64>)
        ensures
            r is Some == old(self)@ is Int,
            r matches Some(i) ==> old(self)@ == ValueView::Int(*i) && final(self)@ == ValueView::Int(*final(i)),
            r is None ==> final(self)@ == old(self)@,
    {
        match self {
            Value::Int(i) => Some(i),
            _ => None,
        }
    }
}


fn same_bytes(a: &Vec<u8>, b: &Vec<u8>) -> (r: bool)
    ensures
        r == (a@ == b@),
{
    if a.len() != b.len() {
        return false;
    }
    let mut i: usize = 0;
    while i < a.len()
        invariant
            a@.len() == b@.len(),
            i <= a@.len(),
            forall|j: int| 0 <= j < i ==> a@[j] == b@[j],
        decreases a@.len() - i,
    {
        if a[i] != b[i] {
            return false;
        }
        i = i + 1;
    }
    assert(a@ =~= b@);
    true
}

impl ValueMap {
    /// Whether two maps hold the same keys with the same values.
    pub fn same_as(&self, other: &ValueMap) -> (r: bool)
        ensures
            r == (self@ == other@),
        decreases self,
    {
        proof {
            use_type_invariant(self);
            use_type_invariant(other);
            lemma_len(self.keys@, self.vals@);
            lemma_len(other.keys@, other.vals@);
        }
        let n = self.keys.len();
        if n != other.keys.len() {
            assert(self@.len() != other@.len());
            return false;
        }
        let mut i: usize = 0;
        while i < n
            invariant
                n == self.keys@.len(),
                n == self.vals@.len(),
                n == other@.len(),
                n == self@.len(),
                self@.dom().finite(),
                other@.dom().finite(),
                i <= n,
                keys_distinct(self.keys@),
                self@ == kv_map(self.keys@, self.vals@),
                forall|j: int| 0 <= j < i ==> #[trigger] other@.contains_key(self.keys@[j]@)
                    && other@[self.keys@[j]@] == self.vals@[j]@,
            decreases n - i,
        {
            assert(decreases_to!(self => self.vals));
            assert(decreases_to!(self.vals => self.vals@));
            assert(decreases_to!(self.vals@ => self.vals@[i as int]));
            proof { lemma_entry(self.keys@, self.vals@, i as int); }
            match other.get(self.keys[i].as_str()) {
                Some(w) => {
                    if !self.vals[i].same_as(w) {
                        return false;
                    }
                },
                None => {
                    return false;
                },
            }
            assert forall|j: int| 0 <= j < i + 1 implies #[trigger] other@.contains_key(self.keys@[j]@)
                && other@[self.keys@[j]@] == self.vals@[j]@ by {
            }
            i = i + 1;
        }
        proof {
            assert forall|k: Seq<char>| self@.contains_key(k) implies other@.contains_key(k) && other@[k] == self@[k] by {
                let j = choose|j: int| 0 <= j < self.keys@.len() && #[trigger] self.keys@[j]@ == k;
                lemma_entry(self.keys@, self.vals@, j);
            }
            assert(self@.dom().subset_of(other@.dom()));
            vstd::set_lib::lemma_subset_equality(self@.dom(), other@.dom());
            assert(self@ =~= other@);
        }
        true
    }
}

impl Value {
    /// Whether two values have the same model.
    pub fn same_as(&self, other: &Value) -> (r: bool)
        ensures
            r == (self@ == other@),
        decreases self,
    {
        match (self, other) {
            (Value::Str(a), Value::Str(b)) => crate::text::str_eq(a.as_str(), b.as_str()),
            (Value::F64(a), Value::F64(b)) => a.bits == b.bits,
            (Value::Int(a), Value::Int(b)) => *a == *b,
            (Value::Bool(a), Value::Bool(b)) => *a == *b,
            (Value::Dict(a), Value::Dict(b)) => {
                assert(decreases_to!(*self => *a));
                a.same_as(b)
            },
            (Value::List(a), Value::List(b)) => {
                if a.len() != b.len() {
                    assert(self@->List_0.len() != other@->List_0.len());
                    return false;
                }
                let n = a.len();
                let mut i: usize = 0;
                while i < n
                    invariant
                        n == a@.len(),
                        n == b@.len(),
                        i <= n,
                        *self == Value::List(*a),
                        *other == Value::List(*b),
                        forall|j: int| 0 <= j < i ==> #[trigger] a@[j]@ == b@[j]@,
                    decreases n - i,
                {
                    assert(decreases_to!(*self => self->List_0));
                    assert(self->List_0 == *a);
                    assert(decreases_to!(*a => a@));
                    assert(decreases_to!(a@ => a@[i as int]));
                    assert(decreases_to!(*self => a@[i as int]));
                    if !a[i].same_as(&b[i]) {
                        proof {
                            assert(self@->List_0[i as int] == a@[i as int]@);
                            assert(other@->List_0[i as int] == b@[i as int]@);
                        }
                        return false;
                    }
                    i = i + 1;
                }
                proof {
                    assert(self@->List_0 =~= other@->List_0) by {
                        assert forall|j: int| 0 <= j < n implies self@->List_0[j] == other@->List_0[j] by {
                            assert(self@->List_0[j] == a@[j]@);
                            assert(other@->List_0[j] == b@[j]@);
                        }
                    }
                }
                true
            },
            (Value::Bytes(a), Value::Bytes(b)) => same_bytes(&a.0, &b.0),
            (Value::Null, Value::Null) => true,
            _ => false,
        }
    }
}

impl Value {
    /// The string of a `Str` value, to change in place.
    pub fn try_as_str_mut(&mut self) -> (r: WalleResult<&mut String>)
        ensures
            match r {
                Ok(x) => old(self)@ == ValueView::Str((*x)@) && final(self)@ == ValueView::Str(final(x)@),
                Err(e) => !(old(self)@ is Str) && type_mismatch(e, "str"@, old(self)@) && final(self)@ == old(self)@,
            },
    {
        proof { reveal_strlit("str"); }
        match self {
            Value::Str(x) => Ok(x),
            _ => Err(mismatch("str", self)),
        }
    }
}

impl ValueMap {
    /// Borrows the value under `key` as a `T`; a missing key is an error.
    pub fn try_get_as_ref<'a, T>(&'a self, key: &str) -> (r: WalleResult<T>)
        where
            Value: TryAsRef<'a, T>,
        ensures
            self@.contains_key(key@) ==> self.value_at(key@)@ == self@[key@],
            r is Ok == (self@.contains_key(key@) && self.value_at(key@).as_ref_accepts()),
            match r {
                Ok(x) => self.value_at(key@).as_ref_gives(x),
                Err(e) => if self@.contains_key(key@) {
                    self.value_at(key@).as_ref_rejects(e)
                } else {
                    missed_key(e, key@)
                },
            },
    {
        match self.get(key) {
            Some(v) => v._try_as_ref(),
            None => Err(WalleError::MapMissedKey(key.to_owned())),
        }
    }

    /// Borrows the value under `key` mutably as a `T`; a missing key is an
    /// error, and leaves the map as it was.
    pub fn try_get_as_mut<'a, T>(&'a mut self, key: &str) -> (r: WalleResult<T>)
        where
            Value: TryAsMut<'a, T>,
        ensures
            old(self)@.contains_key(key@) ==> old(self).value_at(key@)@ == old(self)@[key@],
            r is Ok == (old(self)@.contains_key(key@) && old(self).value_at(key@).as_mut_accepts()),
            match r {
                Ok(x) => old(self).value_at(key@).as_mut_gives(x),
                Err(e) => if old(self)@.contains_key(key@) {
                    old(self).value_at(key@).as_mut_rejects(e)
                } else {
                    missed_key(e, key@) && final(self)@ == old(self)@
                },
            },
    {
        match self.get_mut(key) {
            Some(v) => v._try_as_mut(),
            None => Err(WalleError::MapMissedKey(key.to_owned())),
        }
    }

    /// The string under `key`, to change in place.
    pub fn try_get_str_mut(&mut self, key: &str) -> (r: WalleResult<&mut String>)
        ensures
            match r {
                Ok(x) => old(self)@.contains_key(key@) && old(self)@[key@] == ValueView::Str((*x)@)
                    && final(self)@ == old(self)@.insert(key@, ValueView::Str(final(x)@)),
                Err(e) => final(self)@ == old(self)@ && if !old(self)@.contains_key(key@) {
                    missed_key(e, key@)
                } else {
                    !(old(self)@[key@] is Str) && type_mismatch(e, "str"@, old(self)@[key@])
                },
            },
    {
        let ghost m0 = self@;
        match self.get_mut(key) {
            Some(v) => {
                let r = v.try_as_str_mut();
                proof {
                    if r is Err {
                        assert(m0.insert(key@, m0[key@]) =~= m0);
                    }
                }
                r
            },
            None => Err(WalleError::MapMissedKey(key.to_owned())),
        }
    }
}

impl Value {
    /// The map of a `Map` value, to change in place.
    pub fn try_as_map_mut(&mut self) -> (r: WalleResult<&mut ValueMap>)
        ensures
            match r {
                Ok(x) => old(self)@ == ValueView::Dict((*x)@) && final(self)@ == ValueView::Dict(final(x)@),
                Err(e) => !(old(self)@ is Dict) && type_mismatch(e, "map"@, old(self)@) && final(self)@ == old(self)@,
            },
    {
        proof { reveal_strlit("map"); }
        match self {
            Value::Dict(x) => Ok(x),
            _ => Err(mismatch("map", self)),
        }
    }
}

impl ValueMap {
    /// The map under `key`, to change in place.
    pub fn try_get_map_mut(&mut self, key: &str) -> (r: WalleResult<&mut ValueMap>)
        ensures
            match r {
                Ok(x) => old(self)@.contains_key(key@) && old(self)@[key@] == ValueView::Dict((*x)@)
                    && final(self)@ == old(self)@.insert(key@, ValueView::Dict(final(x)@)),
                Err(e) => final(self)@ == old(self)@ && if !old(self)@.contains_key(key@) {
                    missed_key(e, key@)
                } else {
                    !(old(self)@[key@] is Dict) && type_mismatch(e, "map"@, old(self)@[key@])
                },
            },
    {
        let ghost m0 = self@;
        match self.get_mut(key) {
            Some(v) => {
                let r = v.try_as_map_mut();
                proof {
                    if r is Err {
                        assert(m0.insert(key@, m0[key@]) =~= m0);
                    }
                }
                r
            },
            None => Err(WalleError::MapMissedKey(key.to_owned())),
        }
    }
}

impl ValueMap {
    /// Removes `key` and converts its value into `T`; a value that cannot
    /// be converted is put back, and the error names the target type and
    /// shows the value.
    pub fn try_remove<T: TryFromValue>(&mut self, key: &str) -> (r: WalleResult<T>)
        ensures
            match r {
                Ok(x) => old(self)@.contains_key(key@) && T::accepts(old(self)@[key@])
                    && T::converted(old(self)@[key@], x)
                    && final(self)@ == old(self)@.remove(key@),
                Err(e) => final(self)@ == old(self)@ && if !old(self)@.contains_key(key@) {
                    missed_key(e, key@)
                } else {
                    !T::accepts(old(self)@[key@]) && (e matches WalleError::MapValueTypeMismatch(a, b)
                        && a@ == T::spec_target_name() && debug_of(old(self)@[key@], b@))
                },
            },
    {
        let ghost m0 = self@;
        match self.remove(key) {
            None => {
                assert(m0.remove(key@) =~= m0);
                Err(WalleError::MapMissedKey(key.to_owned()))
            },
            Some(v) => {
                let kind = v.debug_text();
                let copy = v.deep_clone();
                match T::try_from_value(v) {
                    Ok(x) => Ok(x),
                    Err(_) => {
                        let _ = self.insert(key.to_owned(), copy);
                        assert(m0.remove(key@).insert(key@, m0[key@]) =~= m0);
                        Err(WalleError::MapValueTypeMismatch(T::target_name(), kind))
                    },
                }
            },
        }
    }
}
} // verus!

verus! {

/// Downcasting an integer value into an integer type that can hold it
/// gives that very integer, for every integer type; only an integer value
/// is accepted.
pub proof fn law_int_downcast_keeps_value(i: i64)
    ensures
        <i64 as TryFromValue>::accepts(ValueView::Int(i)),
        forall|x: i64| <i64 as TryFromValue>::converted(ValueView::Int(i), x) <==> x == i,
        i32::MIN <= i <= i32::MAX ==> <i32 as TryFromValue>::accepts(ValueView::Int(i))
            && forall|x: i32| <i32 as TryFromValue>::converted(ValueView::Int(i), x) <==> x == i,
        0 <= i <= u32::MAX ==> <u32 as TryFromValue>::accepts(ValueView::Int(i))
            && forall|x: u32| <u32 as TryFromValue>::converted(ValueView::Int(i), x) <==> x == i,
        i16::MIN <= i <= i16::MAX ==> <i16 as TryFromValue>::accepts(ValueView::Int(i))
            && forall|x: i16| <i16 as TryFromValue>::converted(ValueView::Int(i), x) <==> x == i,
        0 <= i <= u16::MAX ==> <u16 as TryFromValue>::accepts(ValueView::Int(i))
            && forall|x: u16| <u16 as TryFromValue>::converted(ValueView::Int(i), x) <==> x == i,
        i8::MIN <= i <= i8::MAX ==> <i8 as TryFromValue>::accepts(ValueView::Int(i))
            && forall|x: i8| <i8 as TryFromValue>::converted(ValueView::Int(i), x) <==> x == i,
        0 <= i <= u8::MAX ==> <u8 as TryFromValue>::accepts(ValueView::Int(i))
            && forall|x: u8| <u8 as TryFromValue>::converted(ValueView::Int(i), x) <==> x == i,
{
}

/// A value of another kind is never taken for an integer.
pub proof fn law_int_downcast_needs_int(v: ValueView)
    requires
        !(v is Int),
    ensures
        !<i64 as TryFromValue>::accepts(v),
        !<i32 as TryFromValue>::accepts(v),
        !<u32 as TryFromValue>::accepts(v),
        !<i16 as TryFromValue>::accepts(v),
        !<u16 as TryFromValue>::accepts(v),
        !<i8 as TryFromValue>::accepts(v),
        !<u8 as TryFromValue>::accepts(v),
{
}

} // verus!
