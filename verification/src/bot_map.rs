//! The registry of connected bots.
//!
//! Each connection has a sequence number, a sender for actions and the set
//! of bot identities it serves; each bot identity has the implementation
//! name that first announced it and the connections that serve it, in the
//! order they joined.  A bot with no connection left is forgotten.

use vstd::prelude::*;
use crate::assoc::{AssocMap, KeyEq, assoc_map, distinct_keys, holds_key, lemma_assoc_entry, lemma_distinct};
use crate::structs::{Bot, Selft};

verus! {

/// The sequence `s` without the connection `c`.
pub open spec fn without(s: Seq<usize>, c: usize) -> Seq<usize> {
    s.filter(other_than(c))
}

/// The predicate "is not `c`".
pub open spec fn other_than(c: usize) -> spec_fn(usize) -> bool {
    |x: usize| x != c
}

/// The model of the registry.
pub struct BotMapView<T> {
    /// The sequence number the next connection gets.
    pub conn_seq: nat,
    /// Bot identity to (implementation name, connections serving it).
    pub bots: Map<(Seq<char>, Seq<char>), (Seq<char>, Seq<usize>)>,
    /// Connection number to (action sender, bot identities it serves).
    pub conns: Map<usize, (T, Set<(Seq<char>, Seq<char>)>)>,
}

/// The bot table after connection `c`, serving the identities `ks`, is
/// closed: `c` leaves the lists of those bots, and a bot whose list
/// becomes empty is dropped.
pub open spec fn close_bots(
    bots: Map<(Seq<char>, Seq<char>), (Seq<char>, Seq<usize>)>,
    c: usize,
    ks: Set<(Seq<char>, Seq<char>)>,
) -> Map<(Seq<char>, Seq<char>), (Seq<char>, Seq<usize>)> {
    Map::new(
        |k: (Seq<char>, Seq<char>)| bots.contains_key(k) && !(ks.contains(k) && without(bots[k].1, c).len() == 0),
        |k: (Seq<char>, Seq<char>)| if ks.contains(k) { (bots[k].0, without(bots[k].1, c)) } else { bots[k] },
    )
}

/// Connection `c` leaves the list of bot `k`, which is dropped when its
/// list becomes empty.
pub open spec fn detach(
    bots: Map<(Seq<char>, Seq<char>), (Seq<char>, Seq<usize>)>,
    k: (Seq<char>, Seq<char>),
    c: usize,
) -> Map<(Seq<char>, Seq<char>), (Seq<char>, Seq<usize>)> {
    if bots.contains_key(k) {
        if without(bots[k].1, c).len() > 0 {
            bots.insert(k, (bots[k].0, without(bots[k].1, c)))
        } else {
            bots.remove(k)
        }
    } else {
        bots
    }
}

/// The (identity, online) pairs of a list of bots.
pub open spec fn bot_items(bots: Seq<Bot>) -> Seq<((Seq<char>, Seq<char>), bool)> {
    bots.map_values(|b: Bot| (b.selft@, b.online))
}

impl<T> BotMapView<T> {
    /// The registry is consistent: every bot is served by at least one
    /// connection, every connection a bot lists serves that bot and every
    /// bot a connection serves lists that connection; connection numbers
    /// are below the next one.
    pub open spec fn wf(self) -> bool {
        &&& self.bots.dom().finite()
        &&& self.conns.dom().finite()
        &&& forall|k: (Seq<char>, Seq<char>)| #[trigger] self.bots.contains_key(k) ==> self.bots[k].1.len() > 0
        &&& forall|k: (Seq<char>, Seq<char>), i: int|
            self.bots.contains_key(k) && 0 <= i < self.bots[k].1.len()
                ==> self.conns.contains_key(#[trigger] self.bots[k].1[i]) && self.conns[self.bots[k].1[i]].1.contains(k)
        &&& forall|c: usize| #[trigger] self.conns.contains_key(c) ==> c < self.conn_seq
        &&& forall|c: usize, k: (Seq<char>, Seq<char>)|
            self.conns.contains_key(c) && #[trigger] self.conns[c].1.contains(k)
                ==> self.bots.contains_key(k) && self.bots[k].1.contains(c)
    }

    /// A new connection with sender `tx` and no bot.
    pub open spec fn after_connect(self, tx: T) -> BotMapView<T> {
        BotMapView {
            conn_seq: self.conn_seq + 1,
            bots: self.bots,
            conns: self.conns.insert(self.conn_seq as usize, (tx, Set::empty())),
        }
    }

    /// Connection `c` is closed; nothing changes if it is not open.
    pub open spec fn after_close(self, c: usize) -> BotMapView<T> {
        if self.conns.contains_key(c) {
            BotMapView {
                conn_seq: self.conn_seq,
                bots: close_bots(self.bots, c, self.conns[c].1),
                conns: self.conns.remove(c),
            }
        } else {
            self
        }
    }

    /// Connection `c` reports bot `k` as online or offline.  An online bot
    /// it did not serve joins it (a new bot entry takes `implt`); an
    /// offline bot it served leaves it.  Anything else changes nothing.
    pub open spec fn update_one(self, c: usize, k: (Seq<char>, Seq<char>), online: bool, implt: Seq<char>) -> BotMapView<T> {
        let tx = self.conns[c].0;
        let ks = self.conns[c].1;
        if online && !ks.contains(k) {
            BotMapView {
                conn_seq: self.conn_seq,
                bots: if self.bots.contains_key(k) {
                    self.bots.insert(k, (self.bots[k].0, self.bots[k].1.push(c)))
                } else {
                    self.bots.insert(k, (implt, seq![c]))
                },
                conns: self.conns.insert(c, (tx, ks.insert(k))),
            }
        } else if !online && ks.contains(k) {
            BotMapView {
                conn_seq: self.conn_seq,
                bots: detach(self.bots, k, c),
                conns: self.conns.insert(c, (tx, ks.remove(k))),
            }
        } else {
            self
        }
    }

    /// Connection `c` reports the bots `items` in order.
    pub open spec fn after_update(self, c: usize, items: Seq<((Seq<char>, Seq<char>), bool)>, implt: Seq<char>) -> BotMapView<T>
        decreases items.len(),
    {
        if items.len() == 0 {
            self
        } else {
            self.after_update(c, items.drop_last(), implt).update_one(c, items.last().0, items.last().1, implt)
        }
    }
}

proof fn lemma_without(s: Seq<usize>, c: usize)
    ensures
        forall|x: usize| #[trigger] without(s, c).contains(x) <==> (s.contains(x) && x != c),
{
    let p = other_than(c);
    assert forall|x: usize| #[trigger] without(s, c).contains(x) <==> (s.contains(x) && x != c) by {
        if without(s, c).contains(x) {
            let i = choose|i: int| 0 <= i < without(s, c).len() && without(s, c)[i] == x;
            s.lemma_filter_pred(p, i);
            s.lemma_filter_contains_rev(p, x);
        }
        if s.contains(x) && x != c {
            let i = choose|i: int| 0 <= i < s.len() && s[i] == x;
            s.lemma_filter_contains(p, i);
        }
    }
}

proof fn lemma_connect_wf<T>(v: BotMapView<T>, tx: T)
    requires
        v.wf(),
        v.conn_seq < usize::MAX,
    ensures
        v.after_connect(tx).wf(),
{
    let w = v.after_connect(tx);
    let n = v.conn_seq as usize;
    assert(!v.conns.contains_key(n));
    assert forall|k: (Seq<char>, Seq<char>), i: int|
        w.bots.contains_key(k) && 0 <= i < w.bots[k].1.len()
            implies w.conns.contains_key(#[trigger] w.bots[k].1[i]) && w.conns[w.bots[k].1[i]].1.contains(k) by {
        assert(v.conns.contains_key(v.bots[k].1[i]));
    }
}

proof fn lemma_close_wf<T>(v: BotMapView<T>, c: usize)
    requires
        v.wf(),
    ensures
        v.after_close(c).wf(),
{
    if v.conns.contains_key(c) {
        let w = v.after_close(c);
        let ks = v.conns[c].1;
        assert(w.bots.dom() =~= v.bots.dom().filter(|k: (Seq<char>, Seq<char>)| !(ks.contains(k) && without(v.bots[k].1, c).len() == 0)));
        assert forall|k: (Seq<char>, Seq<char>), i: int|
            w.bots.contains_key(k) && 0 <= i < w.bots[k].1.len()
                implies w.conns.contains_key(#[trigger] w.bots[k].1[i]) && w.conns[w.bots[k].1[i]].1.contains(k) by {
            let s = w.bots[k].1[i];
            lemma_without(v.bots[k].1, c);
            if ks.contains(k) {
                assert(without(v.bots[k].1, c).contains(s));
                let j = choose|j: int| 0 <= j < v.bots[k].1.len() && v.bots[k].1[j] == s;
                assert(v.conns.contains_key(v.bots[k].1[j]));
            } else {
                assert(v.conns.contains_key(v.bots[k].1[i]));
                assert(s != c);
            }
        }
        assert forall|d: usize, k: (Seq<char>, Seq<char>)|
            w.conns.contains_key(d) && #[trigger] w.conns[d].1.contains(k)
                implies w.bots.contains_key(k) && w.bots[k].1.contains(d) by {
            assert(v.conns[d].1.contains(k));
            lemma_without(v.bots[k].1, c);
            if ks.contains(k) {
                assert(without(v.bots[k].1, c).contains(d));
            }
        }
    }
}

proof fn lemma_update_one_wf<T>(v: BotMapView<T>, c: usize, k: (Seq<char>, Seq<char>), online: bool, implt: Seq<char>)
    requires
        v.wf(),
        v.conns.contains_key(c),
    ensures
        v.update_one(c, k, online, implt).wf(),
        v.update_one(c, k, online, implt).conns.contains_key(c),
        v.update_one(c, k, online, implt).conns[c].0 == v.conns[c].0,
        v.update_one(c, k, online, implt).conn_seq == v.conn_seq,
{
    let w = v.update_one(c, k, online, implt);
    let ks = v.conns[c].1;
    if online && !ks.contains(k) {
        assert forall|q: (Seq<char>, Seq<char>), i: int|
            w.bots.contains_key(q) && 0 <= i < w.bots[q].1.len()
                implies w.conns.contains_key(#[trigger] w.bots[q].1[i]) && w.conns[w.bots[q].1[i]].1.contains(q) by {
            if q == k {
                if v.bots.contains_key(k) && i < v.bots[k].1.len() {
                    assert(w.bots[q].1[i] == v.bots[k].1[i]);
                    assert(v.conns.contains_key(v.bots[k].1[i]));
                }
            } else {
                assert(v.conns.contains_key(v.bots[q].1[i]));
            }
        }
        assert forall|d: usize, q: (Seq<char>, Seq<char>)|
            w.conns.contains_key(d) && #[trigger] w.conns[d].1.contains(q)
                implies w.bots.contains_key(q) && w.bots[q].1.contains(d) by {
            if q == k {
                if d == c {
                    if v.bots.contains_key(k) {
                        assert(w.bots[q].1[v.bots[k].1.len() as int] == c);
                    } else {
                        assert(w.bots[q].1[0] == c);
                    }
                } else {
                    assert(v.conns[d].1.contains(q));
                    let j = choose|j: int| 0 <= j < v.bots[q].1.len() && v.bots[q].1[j] == d;
                    assert(w.bots[q].1[j] == d);
                }
            } else {
                assert(v.conns[d].1.contains(q));
            }
        }
    } else if !online && ks.contains(k) {
        assert(v.bots.contains_key(k));
        lemma_without(v.bots[k].1, c);
        assert forall|q: (Seq<char>, Seq<char>)| #[trigger] w.bots.contains_key(q) implies w.bots[q].1.len() > 0 by {
            if q != k {
                assert(v.bots.contains_key(q));
            }
        }
        assert forall|q: (Seq<char>, Seq<char>), i: int|
            w.bots.contains_key(q) && 0 <= i < w.bots[q].1.len()
                implies w.conns.contains_key(#[trigger] w.bots[q].1[i]) && w.conns[w.bots[q].1[i]].1.contains(q) by {
            let s = w.bots[q].1[i];
            if q == k {
                assert(without(v.bots[k].1, c).contains(s));
                let j = choose|j: int| 0 <= j < v.bots[k].1.len() && v.bots[k].1[j] == s;
                assert(v.conns.contains_key(v.bots[k].1[j]));
            } else {
                assert(v.conns.contains_key(v.bots[q].1[i]));
            }
        }
        assert forall|d: usize, q: (Seq<char>, Seq<char>)|
            w.conns.contains_key(d) && #[trigger] w.conns[d].1.contains(q)
                implies w.bots.contains_key(q) && w.bots[q].1.contains(d) by {
            assert(v.conns[d].1.contains(q));
            if q == k {
                assert(d != c);
                assert(without(v.bots[k].1, c).contains(d));
            }
        }
    }
}

proof fn lemma_update_wf<T>(v: BotMapView<T>, c: usize, items: Seq<((Seq<char>, Seq<char>), bool)>, implt: Seq<char>)
    requires
        v.wf(),
        v.conns.contains_key(c),
    ensures
        v.after_update(c, items, implt).wf(),
        v.after_update(c, items, implt).conns.contains_key(c),
        v.after_update(c, items, implt).conns[c].0 == v.conns[c].0,
        v.after_update(c, items, implt).conn_seq == v.conn_seq,
    decreases items.len(),
{
    if items.len() > 0 {
        lemma_update_wf(v, c, items.drop_last(), implt);
        lemma_update_one_wf(v.after_update(c, items.drop_last(), implt), c, items.last().0, items.last().1, implt);
    }
}


/// The bot table as the model sees it.
pub open spec fn bots_model(m: Map<(Seq<char>, Seq<char>), (String, Vec<usize>)>) -> Map<(Seq<char>, Seq<char>), (Seq<char>, Seq<usize>)> {
    m.map_values(bot_value_model())
}

/// How the model sees one entry of the bot table.
pub open spec fn bot_value_model() -> spec_fn((String, Vec<usize>)) -> (Seq<char>, Seq<usize>) {
    |v: (String, Vec<usize>)| (v.0@, v.1@)
}

/// How the model sees one entry of the connection table.
pub open spec fn conn_value_model<T>() -> spec_fn((T, AssocMap<Selft, ()>)) -> (T, Set<(Seq<char>, Seq<char>)>) {
    |v: (T, AssocMap<Selft, ()>)| (v.0, v.1@.dom())
}

/// The connection table as the model sees it.
pub open spec fn conns_model<T>(m: Map<usize, (T, AssocMap<Selft, ()>)>) -> Map<usize, (T, Set<(Seq<char>, Seq<char>)>)> {
    m.map_values(conn_value_model())
}

proof fn lemma_map_values_insert<K, V, W>(m: Map<K, V>, k: K, v: V, f: spec_fn(V) -> W)
    ensures
        m.insert(k, v).map_values(f) == m.map_values(f).insert(k, f(v)),
{
    assert(m.insert(k, v).map_values(f) =~= m.map_values(f).insert(k, f(v)));
}

proof fn lemma_map_values_remove<K, V, W>(m: Map<K, V>, k: K, f: spec_fn(V) -> W)
    ensures
        m.remove(k).map_values(f) == m.map_values(f).remove(k),
{
    assert(m.remove(k).map_values(f) =~= m.map_values(f).remove(k));
}


/// The identities held by the first entries of a connection's bot set.
pub open spec fn keys_of(es: Seq<(Selft, ())>) -> Set<(Seq<char>, Seq<char>)> {
    Set::new(|k: (Seq<char>, Seq<char>)| holds_key(es, k))
}

proof fn lemma_close_step(
    bots: Map<(Seq<char>, Seq<char>), (Seq<char>, Seq<usize>)>,
    c: usize,
    ks: Set<(Seq<char>, Seq<char>)>,
    k: (Seq<char>, Seq<char>),
)
    requires
        !ks.contains(k),
    ensures
        close_bots(bots, c, ks.insert(k)) == detach(close_bots(bots, c, ks), k, c),
{
    assert(close_bots(bots, c, ks.insert(k)) =~= detach(close_bots(bots, c, ks), k, c));
}

proof fn lemma_close_empty(bots: Map<(Seq<char>, Seq<char>), (Seq<char>, Seq<usize>)>, c: usize)
    ensures
        close_bots(bots, c, Set::empty()) == bots,
{
    assert(close_bots(bots, c, Set::empty()) =~= bots);
}

/// The tables of the registry, without its consistency guaranteed.
struct BotTables<T> {
    conn_seq: usize,
    bots: AssocMap<Selft, (String, Vec<usize>)>,
    conns: AssocMap<usize, (T, AssocMap<Selft, ()>)>,
}

impl<T> View for BotTables<T> {
    type V = BotMapView<T>;

    closed spec fn view(&self) -> BotMapView<T> {
        BotMapView {
            conn_seq: self.conn_seq as nat,
            bots: bots_model(self.bots@),
            conns: conns_model(self.conns@),
        }
    }
}

/// The list `s` without the connection `c`.
fn without_conn(s: &Vec<usize>, c: usize) -> (r: Vec<usize>)
    ensures
        r@ == without(s@, c),
{
    let mut out: Vec<usize> = Vec::new();
    let mut i: usize = 0;
    while i < s.len()
        invariant
            i <= s@.len(),
            out@ == without(s@.take(i as int), c),
        decreases s@.len() - i,
    {
        proof {
            assert(s@.take(i + 1) =~= s@.take(i as int).push(s@[i as int]));
            s@.take(i as int).lemma_filter_push(s@[i as int], other_than(c));
        }
        if s[i] != c {
            out.push(s[i]);
        }
        i = i + 1;
    }
    assert(s@.take(s@.len() as int) =~= s@);
    out
}

impl<T> BotTables<T> {
    /// The registry is consistent.
    spec fn wf(&self) -> bool {
        self@.wf()
    }

    /// An empty registry; the first connection gets number 0.
    fn new() -> (m: BotTables<T>)
        ensures
            m.wf(),
            m@.conn_seq == 0,
            m@.bots == Map::<(Seq<char>, Seq<char>), (Seq<char>, Seq<usize>)>::empty(),
            m@.conns == Map::<usize, (T, Set<(Seq<char>, Seq<char>)>)>::empty(),
    {
        let m = BotTables { conn_seq: 0, bots: AssocMap::new(), conns: AssocMap::new() };
        assert(m@.bots =~= Map::<(Seq<char>, Seq<char>), (Seq<char>, Seq<usize>)>::empty());
        assert(m@.conns =~= Map::<usize, (T, Set<(Seq<char>, Seq<char>)>)>::empty());
        m
    }

    /// The number the next connection gets.
    fn next_conn_seq(&self) -> (r: usize)
        ensures
            r == self@.conn_seq,
    {
        self.conn_seq
    }

    /// Registers a new connection with action sender `tx` and returns its
    /// number.
    fn new_connect(&mut self, tx: T) -> (seq: usize)
        requires
            old(self).wf(),
            old(self)@.conn_seq < usize::MAX,
        ensures
            seq == old(self)@.conn_seq,
            final(self)@ == old(self)@.after_connect(tx),
            final(self).wf(),
    {
        let ghost old_v = self@;
        let ghost old_conns = self.conns@;
        let seq = self.conn_seq;
        self.conn_seq = seq + 1;
        let empty: AssocMap<Selft, ()> = AssocMap::new();
        let ghost e = empty;
        let _ = self.conns.insert(seq, (tx, empty));
        proof {
            assert(e@.dom() =~= Set::<(Seq<char>, Seq<char>)>::empty());
            lemma_map_values_insert(old_conns, seq, (tx, e), conn_value_model::<T>());
            assert(self@.conns =~= old_v.conns.insert(seq, (tx, Set::empty())));
            lemma_connect_wf(old_v, tx);
        }
        seq
    }

    /// Connection `c` leaves the list of bot `k` in the exec tables.
    fn detach_exec(&mut self, k: &Selft, c: usize)
        ensures
            final(self).conn_seq == old(self).conn_seq,
            final(self).conns@ == old(self).conns@,
            bots_model(final(self).bots@) == detach(bots_model(old(self).bots@), k@, c),
    {
        let ghost old_bots = self.bots@;
        let ghost f = bot_value_model();
        match self.bots.remove(k) {
            Some(v) => {
                proof { lemma_map_values_remove(old_bots, k@, f); }
                let (implt, list) = v;
                let nl = without_conn(&list, c);
                if nl.len() > 0 {
                    let ghost removed = self.bots@;
                    let ghost nv = (implt, nl);
                    let _ = self.bots.insert(k.key_clone(), (implt, nl));
                    proof {
                        lemma_map_values_insert(removed, k@, nv, f);
                        assert(bots_model(old_bots).remove(k@).insert(k@, (nv.0@, nv.1@)) =~= bots_model(old_bots).insert(k@, (nv.0@, nv.1@)));
                    }
                }
            },
            None => {},
        }
    }

    /// Closes connection `tx_seq`: it leaves every bot it served, and bots
    /// left with no connection are dropped.  Nothing changes if it is not
    /// open.
    fn connect_closs(&mut self, tx_seq: usize)
        requires
            old(self).wf(),
        ensures
            final(self)@ == old(self)@.after_close(tx_seq),
            final(self).wf(),
    {
        let ghost old_v = self@;
        let ghost old_conns = self.conns@;
        let removed = self.conns.remove(&tx_seq);
        match removed {
            None => {
                assert(self@.conns =~= old_v.conns);
            },
            Some(entry) => {
                proof {
                    lemma_map_values_remove(old_conns, tx_seq, conn_value_model::<T>());
                }
                let (_tx, selfts) = entry;
                let es = selfts.entries();
                let ghost ks = selfts@.dom();
                let n = es.len();
                let mut i: usize = 0;
                proof {
                    assert(keys_of(es@.take(0)) =~= Set::empty());
                    lemma_close_empty(old_v.bots, tx_seq);
                }
                while i < n
                    invariant
                        n == es@.len(),
                        i <= n,
                        distinct_keys(es@),
                        self.conn_seq == old_v.conn_seq,
                        conns_model(self.conns@) == old_v.conns.remove(tx_seq),
                        bots_model(self.bots@) == close_bots(old_v.bots, tx_seq, keys_of(es@.take(i as int))),
                    decreases n - i,
                {
                    let k = &es[i].0;
                    proof {
                        let pre = es@.take(i as int);
                        if keys_of(pre).contains(k@) {
                            let j = choose|j: int| 0 <= j < pre.len() && #[trigger] pre[j].0@ == k@;
                            assert(es@[j].0@ == es@[i as int].0@);
                        }
                        assert(keys_of(es@.take(i + 1)) =~= keys_of(pre).insert(k@)) by {
                            assert forall|q: (Seq<char>, Seq<char>)| keys_of(es@.take(i + 1)).contains(q) implies keys_of(pre).insert(k@).contains(q) by {
                                let j = choose|j: int| 0 <= j < i + 1 && #[trigger] es@.take(i + 1)[j].0@ == q;
                                if j < i { assert(pre[j].0@ == q); }
                            }
                            assert forall|q: (Seq<char>, Seq<char>)| keys_of(pre).insert(k@).contains(q) implies keys_of(es@.take(i + 1)).contains(q) by {
                                if q == k@ {
                                    assert(es@.take(i + 1)[i as int].0@ == q);
                                } else {
                                    let j = choose|j: int| 0 <= j < pre.len() && #[trigger] pre[j].0@ == q;
                                    assert(es@.take(i + 1)[j].0@ == q);
                                }
                            }
                        }
                        lemma_close_step(old_v.bots, tx_seq, keys_of(pre), k@);
                    }
                    self.detach_exec(k, tx_seq);
                    i = i + 1;
                }
                proof {
                    assert(es@.take(n as int) =~= es@);
                    assert(keys_of(es@) =~= ks) by {
                        assert(assoc_map(es@) == selfts@);
                    }
                    assert(self@.bots == close_bots(old_v.bots, tx_seq, old_v.conns[tx_seq].1));
                    assert(self@ == old_v.after_close(tx_seq));
                }
            },
        }
        proof { lemma_close_wf(old_v, tx_seq); }
    }

    /// Connection `tx_seq` reports its bots, in order: an online bot it did
    /// not serve joins it (a new bot entry takes the implementation name
    /// `implt`), an offline bot it served leaves it.
    fn connect_update(&mut self, tx_seq: usize, bots: Vec<Bot>, implt: &str)
        requires
            old(self).wf(),
            old(self)@.conns.contains_key(tx_seq),
        ensures
            final(self)@ == old(self)@.after_update(tx_seq, bot_items(bots@), implt@),
            final(self).wf(),
    {
        let ghost old_v = self@;
        let ghost old_conns = self.conns@;
        let ghost items = bot_items(bots@);
        let removed = self.conns.remove(&tx_seq);
        proof {
            lemma_map_values_remove(old_conns, tx_seq, conn_value_model::<T>());
        }
        let (tx, mut selfts) = match removed {
            Some(e) => e,
            None => {
                proof { assert(false); }
                return;
            },
        };
        let ghost mut st = old_v;
        let n = bots.len();
        let mut i: usize = 0;
        while i < n
            invariant
                n == bots@.len(),
                i <= n,
                items == bot_items(bots@),
                st == old_v.after_update(tx_seq, items.take(i as int), implt@),
                st.conns.contains_key(tx_seq),
                st.conns[tx_seq].0 == tx,
                st.conn_seq == old_v.conn_seq,
                selfts@.dom() == st.conns[tx_seq].1,
                self.conn_seq == old_v.conn_seq,
                bots_model(self.bots@) == st.bots,
                conns_model(self.conns@) == st.conns.remove(tx_seq),
            decreases n - i,
        {
            let b = &bots[i];
            let k = &b.selft;
            let ghost pre = st;
            let ghost old_bots = self.bots@;
            let ghost old_sel = selfts@;
            let present = selfts.contains_key(k);
            if b.online && !present {
                let _ = selfts.insert(k.key_clone(), ());
                let ghost f = bot_value_model();
                match self.bots.remove(k) {
                    Some(v) => {
                        let (im, mut list) = v;
                        list.push(tx_seq);
                        let ghost removed_bots = self.bots@;
                        let ghost nv = (im, list);
                        let _ = self.bots.insert(k.key_clone(), (im, list));
                        proof {
                            lemma_map_values_remove(old_bots, k@, f);
                            lemma_map_values_insert(removed_bots, k@, nv, f);
                            assert(bots_model(old_bots).contains_key(k@));
                            assert(bots_model(self.bots@) =~= pre.bots.insert(k@, (pre.bots[k@].0, pre.bots[k@].1.push(tx_seq))));
                        }
                    },
                    None => {
                        let mut list: Vec<usize> = Vec::new();
                        list.push(tx_seq);
                        let name = implt.to_owned();
                        let ghost removed_bots = self.bots@;
                        let ghost nv = (name, list);
                        let _ = self.bots.insert(k.key_clone(), (name, list));
                        proof {
                            lemma_map_values_remove(old_bots, k@, f);
                            lemma_map_values_insert(removed_bots, k@, nv, f);
                            assert(nv.1@ =~= seq![tx_seq]);
                            assert(!bots_model(old_bots).contains_key(k@));
                            assert(bots_model(self.bots@) =~= pre.bots.insert(k@, (implt@, seq![tx_seq])));
                        }
                    },
                }
                proof {
                    assert(selfts@.dom() =~= old_sel.dom().insert(k@));
                }
            } else if !b.online && present {
                let _ = selfts.remove(k);
                self.detach_exec(k, tx_seq);
                proof {
                    assert(selfts@.dom() =~= old_sel.dom().remove(k@));
                }
            }
            proof {
                st = pre.update_one(tx_seq, k@, b.online, implt@);
                assert(items[i as int] == (k@, b.online));
                assert(items.take(i + 1).drop_last() =~= items.take(i as int));
                assert(st.conns.remove(tx_seq) =~= pre.conns.remove(tx_seq));
                assert(st.conns[tx_seq].1 == selfts@.dom());
            }
            i = i + 1;
        }
        let ghost sel = selfts;
        let ghost before = self.conns@;
        let _ = self.conns.insert(tx_seq, (tx, selfts));
        proof {
            assert(items.take(n as int) =~= items);
            lemma_map_values_insert(before, tx_seq, (tx, sel), conn_value_model::<T>());
            assert(conns_model(self.conns@) =~= st.conns);
            lemma_update_wf(old_v, tx_seq, items, implt@);
        }
    }

    /// Whether bot `bot` is served by some connection.
    fn contains_bot(&self, bot: &Selft) -> (r: bool)
        ensures
            r == (self@.bots.contains_key(bot@) && self@.bots[bot@].1.len() > 0),
    {
        match self.bots.get(bot) {
            Some(entry) => entry.1.len() > 0,
            None => false,
        }
    }

    /// The number of connections serving bot `bot`, if it is known.
    fn bot_conn_count(&self, bot: &Selft) -> (r: Option<usize>)
        ensures
            r is Some == self@.bots.contains_key(bot@),
            r matches Some(n) ==> n == self@.bots[bot@].1.len(),
    {
        match self.bots.get(bot) {
            Some(entry) => Some(entry.1.len()),
            None => None,
        }
    }

    /// The number of bots connection `seq` serves, if it is open.
    fn conn_bot_count(&self, seq: usize) -> (r: Option<usize>)
        ensures
            r is Some == self@.conns.contains_key(seq),
            r matches Some(n) ==> n == self@.conns[seq].1.len(),
    {
        match self.conns.get(&seq) {
            Some(entry) => Some(entry.1.len()),
            None => None,
        }
    }

    /// The numbers of the open connections.
    fn conn_seqs(&self) -> (r: Vec<usize>)
        ensures
            r@.no_duplicates(),
            r@.to_set() == self@.conns.dom(),
    {
        let es = self.conns.entries();
        let mut out: Vec<usize> = Vec::new();
        let mut i: usize = 0;
        while i < es.len()
            invariant
                i <= es@.len(),
                distinct_keys(es@),
                assoc_map(es@) == self.conns@,
                out@.len() == i,
                forall|j: int| 0 <= j < i ==> #[trigger] out@[j] == es@[j].0,
            decreases es@.len() - i,
        {
            out.push(es[i].0);
            i = i + 1;
        }
        proof {
            assert forall|a: int, b: int| 0 <= a < out@.len() && 0 <= b < out@.len() && a != b implies out@[a] != out@[b] by {
                assert(out@[a] == es@[a].0);
                assert(out@[b] == es@[b].0);
                lemma_distinct(es@, a, b);
            }
            assert forall|c: usize| #[trigger] out@.to_set().contains(c) == self@.conns.contains_key(c) by {
                if out@.to_set().contains(c) {
                    let j = choose|j: int| 0 <= j < out@.len() && out@[j] == c;
                    lemma_assoc_entry(es@, j);
                }
                if self@.conns.contains_key(c) {
                    let j = choose|j: int| 0 <= j < es@.len() && #[trigger] es@[j].0@ == c;
                    assert(out@[j] == c);
                }
            }
            assert(out@.to_set() =~= self@.conns.dom());
        }
        out
    }

    /// Every known bot with whether it is online (served by a
    /// connection), each once, in no particular order.
    fn bot_statuses(&self) -> (r: Vec<Bot>)
        ensures
            forall|i: int| 0 <= i < r@.len() ==> self@.bots.contains_key(#[trigger] r@[i].selft@)
                && r@[i].online == (self@.bots[r@[i].selft@].1.len() > 0),
            forall|k: (Seq<char>, Seq<char>)| #[trigger] self@.bots.contains_key(k) ==> exists|i: int| 0 <= i < r@.len() && #[trigger] r@[i].selft@ == k,
            forall|i: int, j: int| 0 <= i < r@.len() && 0 <= j < r@.len() && i != j ==> #[trigger] r@[i].selft@ != #[trigger] r@[j].selft@,
    {
        let es = self.bots.entries();
        let mut out: Vec<Bot> = Vec::new();
        let mut i: usize = 0;
        while i < es.len()
            invariant
                i <= es@.len(),
                distinct_keys(es@),
                assoc_map(es@) == self.bots@,
                out@.len() == i,
                forall|j: int| 0 <= j < i ==> #[trigger] out@[j].selft@ == es@[j].0@,
                forall|j: int| 0 <= j < i ==> #[trigger] out@[j].online == (es@[j].1.1@.len() > 0),
            decreases es@.len() - i,
        {
            let online = es[i].1.1.len() > 0;
            let sf = es[i].0.duplicate();
            let ghost before = out@;
            out.push(Bot { selft: sf, online });
            assert(out@[i as int].selft@ == es@[i as int].0@);
            assert(out@[i as int].online == (es@[i as int].1.1@.len() > 0));
            assert forall|j: int| 0 <= j < i + 1 implies #[trigger] out@[j].selft@ == es@[j].0@ by {
                if j < i {
                    assert(out@[j] == before[j]);
                }
            }
            assert forall|j: int| 0 <= j < i + 1 implies #[trigger] out@[j].online == (es@[j].1.1@.len() > 0) by {
                if j < i {
                    assert(out@[j] == before[j]);
                }
            }
            i = i + 1;
        }
        proof {
            assert forall|j: int| 0 <= j < out@.len() implies self@.bots.contains_key(#[trigger] out@[j].selft@)
                && out@[j].online == (self@.bots[out@[j].selft@].1.len() > 0) by {
                lemma_assoc_entry(es@, j);
            }
            assert forall|k: (Seq<char>, Seq<char>)| #[trigger] self@.bots.contains_key(k) implies exists|j: int| 0 <= j < out@.len() && #[trigger] out@[j].selft@ == k by {
                let j = choose|j: int| 0 <= j < es@.len() && #[trigger] es@[j].0@ == k;
                assert(out@[j].selft@ == k);
            }
            assert forall|a: int, b: int| 0 <= a < out@.len() && 0 <= b < out@.len() && a != b implies #[trigger] out@[a].selft@ != #[trigger] out@[b].selft@ by {
                assert(out@[a].selft@ == es@[a].0@);
                assert(out@[b].selft@ == es@[b].0@);
            }
        }
        out
    }
}

impl<T: Clone> BotTables<T> {
    /// The action senders of the connections serving bot `bot`, in the
    /// order they joined; `None` where no connection serves it.
    fn get_bot_tx(&self, bot: &Selft) -> (r: Option<Vec<T>>)
        requires
            self.wf(),
        ensures
            r is Some == self@.bots.contains_key(bot@),
            r matches Some(v) ==> v@.len() == self@.bots[bot@].1.len()
                && forall|i: int| 0 <= i < v@.len() ==> cloned(self@.conns[self@.bots[bot@].1[i]].0, #[trigger] v@[i]),
    {
        match self.bots.get(bot) {
            None => None,
            Some(entry) => {
                let list = &entry.1;
                let ghost seqs = self@.bots[bot@].1;
                assert(seqs == list@);
                let mut out: Vec<T> = Vec::new();
                let mut i: usize = 0;
                while i < list.len()
                    invariant
                        i <= list@.len(),
                        seqs == list@,
                        self.wf(),
                        self@.bots.contains_key(bot@),
                        seqs == self@.bots[bot@].1,
                        out@.len() == i,
                        forall|j: int| 0 <= j < i ==> cloned(self@.conns[seqs[j]].0, #[trigger] out@[j]),
                    decreases list@.len() - i,
                {
                    let c = list[i];
                    assert(self@.conns.contains_key(seqs[i as int]));
                    match self.conns.get(&c) {
                        Some(ce) => {
                            let t = ce.0.clone();
                            out.push(t);
                        },
                        None => {
                            proof { assert(false); }
                            return None;
                        },
                    }
                    i = i + 1;
                }
                Some(out)
            },
        }
    }
}


/// The registry of bots and connections; `T` is the action sender of a
/// connection.  It is always consistent (`BotMapView::wf`).
pub struct BotMap<T> {
    tables: BotTables<T>,
}

impl<T> View for BotMap<T> {
    type V = BotMapView<T>;

    closed spec fn view(&self) -> BotMapView<T> {
        self.tables@
    }
}

impl<T> BotMap<T> {
    #[verifier::type_invariant]
    spec fn inv(self) -> bool {
        self.tables@.wf()
    }

    /// The registry is consistent; every registry is.
    pub open spec fn wf(&self) -> bool {
        self@.wf()
    }

    /// An empty registry; the first connection gets number 0.
    pub fn new() -> (m: BotMap<T>)
        ensures
            m.wf(),
            m@.conn_seq == 0,
            m@.bots == Map::<(Seq<char>, Seq<char>), (Seq<char>, Seq<usize>)>::empty(),
            m@.conns == Map::<usize, (T, Set<(Seq<char>, Seq<char>)>)>::empty(),
    {
        BotMap { tables: BotTables::new() }
    }

    /// The number the next connection gets.
    pub fn next_conn_seq(&self) -> (r: usize)
        ensures
            self.wf(),
            r == self@.conn_seq,
    {
        proof { use_type_invariant(self); }
        self.tables.next_conn_seq()
    }

    /// Registers a new connection with action sender `tx` and returns its
    /// number.
    pub fn new_connect(&mut self, tx: T) -> (seq: usize)
        requires
            old(self)@.conn_seq < usize::MAX,
        ensures
            seq == old(self)@.conn_seq,
            final(self)@ == old(self)@.after_connect(tx),
            final(self).wf(),
    {
        proof { use_type_invariant(&*self); }
        let mut t = BotTables::new();
        std::mem::swap(&mut t, &mut self.tables);
        let seq = t.new_connect(tx);
        self.tables = t;
        seq
    }

    /// Closes connection `tx_seq`: it leaves every bot it served, and bots
    /// left with no connection are dropped.  Nothing changes if it is not
    /// open.
    pub fn connect_closs(&mut self, tx_seq: usize)
        ensures
            final(self)@ == old(self)@.after_close(tx_seq),
            final(self).wf(),
    {
        proof { use_type_invariant(&*self); }
        let mut t = BotTables::new();
        std::mem::swap(&mut t, &mut self.tables);
        t.connect_closs(tx_seq);
        self.tables = t;
    }

    /// Connection `tx_seq` reports its bots, in order: an online bot it did
    /// not serve joins it (a new bot entry takes the implementation name
    /// `implt`), an offline bot it served leaves it.
    pub fn connect_update(&mut self, tx_seq: usize, bots: Vec<Bot>, implt: &str)
        requires
            old(self)@.conns.contains_key(tx_seq),
        ensures
            final(self)@ == old(self)@.after_update(tx_seq, bot_items(bots@), implt@),
            final(self).wf(),
    {
        proof { use_type_invariant(&*self); }
        let mut t = BotTables::new();
        std::mem::swap(&mut t, &mut self.tables);
        t.connect_update(tx_seq, bots, implt);
        self.tables = t;
    }

    /// Whether bot `bot` is served by some connection.
    pub fn contains_bot(&self, bot: &Selft) -> (r: bool)
        ensures
            self.wf(),
            r == (self@.bots.contains_key(bot@) && self@.bots[bot@].1.len() > 0),
    {
        proof { use_type_invariant(self); }
        self.tables.contains_bot(bot)
    }

    /// The number of connections serving bot `bot`, if it is known.
    pub fn bot_conn_count(&self, bot: &Selft) -> (r: Option<usize>)
        ensures
            self.wf(),
            r is Some == self@.bots.contains_key(bot@),
            r matches Some(n) ==> n == self@.bots[bot@].1.len(),
    {
        proof { use_type_invariant(self); }
        self.tables.bot_conn_count(bot)
    }

    /// The number of bots connection `seq` serves, if it is open.
    pub fn conn_bot_count(&self, seq: usize) -> (r: Option<usize>)
        ensures
            self.wf(),
            r is Some == self@.conns.contains_key(seq),
            r matches Some(n) ==> n == self@.conns[seq].1.len(),
    {
        proof { use_type_invariant(self); }
        self.tables.conn_bot_count(seq)
    }

    /// The numbers of the open connections.
    pub fn conn_seqs(&self) -> (r: Vec<usize>)
        ensures
            self.wf(),
            r@.no_duplicates(),
            r@.to_set() == self@.conns.dom(),
    {
        proof { use_type_invariant(self); }
        self.tables.conn_seqs()
    }

    /// Every known bot with whether it is online (served by a
    /// connection), each once, in no particular order.
    pub fn bot_statuses(&self) -> (r: Vec<Bot>)
        ensures
            self.wf(),
            forall|i: int| 0 <= i < r@.len() ==> self@.bots.contains_key(#[trigger] r@[i].selft@)
                && r@[i].online == (self@.bots[r@[i].selft@].1.len() > 0),
            forall|k: (Seq<char>, Seq<char>)| #[trigger] self@.bots.contains_key(k) ==> exists|i: int| 0 <= i < r@.len() && #[trigger] r@[i].selft@ == k,
            forall|i: int, j: int| 0 <= i < r@.len() && 0 <= j < r@.len() && i != j ==> #[trigger] r@[i].selft@ != #[trigger] r@[j].selft@,
    {
        proof { use_type_invariant(self); }
        self.tables.bot_statuses()
    }
}

impl<T: Clone> BotMap<T> {
    /// The action senders of the connections serving bot `bot`, in the
    /// order they joined; `None` where no connection serves it.
    pub fn get_bot_tx(&self, bot: &Selft) -> (r: Option<Vec<T>>)
        ensures
            self.wf(),
            r is Some == self@.bots.contains_key(bot@),
            r matches Some(v) ==> v@.len() == self@.bots[bot@].1.len()
                && forall|i: int| 0 <= i < v@.len() ==> cloned(self@.conns[self@.bots[bot@].1[i]].0, #[trigger] v@[i]),
    {
        proof { use_type_invariant(self); }
        self.tables.get_bot_tx(bot)
    }
}

proof fn lemma_without_absent(s: Seq<usize>, c: usize)
    requires
        !s.contains(c),
    ensures
        without(s, c) == s,
    decreases s.len(),
{
    if s.len() > 0 {
        let init = s.drop_last();
        assert(!init.contains(c)) by {
            if init.contains(c) {
                let j = choose|j: int| 0 <= j < init.len() && init[j] == c;
                assert(s[j] == c);
            }
        }
        lemma_without_absent(init, c);
        assert(init.push(s.last()) =~= s);
        init.lemma_filter_push(s.last(), other_than(c));
    } else {
        reveal(Seq::filter);
    }
}

/// Opening a connection and closing it again leaves the bots and the
/// other connections as they were.
pub proof fn law_connect_then_close<T>(v: BotMapView<T>, tx: T)
    requires
        v.wf(),
        v.conn_seq < usize::MAX,
    ensures
        v.after_connect(tx).after_close(v.conn_seq as usize).bots == v.bots,
        v.after_connect(tx).after_close(v.conn_seq as usize).conns == v.conns,
        v.after_connect(tx).after_close(v.conn_seq as usize).conn_seq == v.conn_seq + 1,
{
    let c = v.conn_seq as usize;
    let w = v.after_connect(tx);
    assert(!v.conns.contains_key(c));
    assert(close_bots(w.bots, c, Set::empty()) =~= v.bots);
    assert(w.conns.remove(c) =~= v.conns);
}

/// A closed connection is gone, and no bot lists it any more.
pub proof fn law_close_forgets_connection<T>(v: BotMapView<T>, c: usize)
    requires
        v.wf(),
    ensures
        !v.after_close(c).conns.contains_key(c),
        forall|k: (Seq<char>, Seq<char>)| #[trigger] v.after_close(c).bots.contains_key(k) ==> !v.after_close(c).bots[k].1.contains(c),
{
    let w = v.after_close(c);
    assert forall|k: (Seq<char>, Seq<char>)| #[trigger] w.bots.contains_key(k) implies !w.bots[k].1.contains(c) by {
        lemma_without(v.bots[k].1, c);
        if v.conns.contains_key(c) && !v.conns[c].1.contains(k) && w.bots[k].1.contains(c) {
            let i = choose|i: int| 0 <= i < v.bots[k].1.len() && v.bots[k].1[i] == c;
            assert(v.conns[v.bots[k].1[i]].1.contains(k));
        }
    }
}

/// After a connection reports a bot online, the bot is known and served by
/// that connection.
pub proof fn law_online_bot_is_served<T>(v: BotMapView<T>, c: usize, k: (Seq<char>, Seq<char>), implt: Seq<char>)
    requires
        v.wf(),
        v.conns.contains_key(c),
    ensures
        v.after_update(c, seq![(k, true)], implt).bots.contains_key(k),
        v.after_update(c, seq![(k, true)], implt).bots[k].1.contains(c),
        v.after_update(c, seq![(k, true)], implt).conns[c].1.contains(k),
{
    let items = seq![(k, true)];
    assert(items.drop_last() =~= Seq::<((Seq<char>, Seq<char>), bool)>::empty());
    assert(v.after_update(c, items.drop_last(), implt) == v);
    let w = v.after_update(c, items, implt);
    assert(w == v.update_one(c, k, true, implt));
    if v.conns[c].1.contains(k) {
        assert(w == v);
    } else if v.bots.contains_key(k) {
        assert(w.bots[k].1 == v.bots[k].1.push(c));
        assert(w.bots[k].1[v.bots[k].1.len() as int] == c);
    } else {
        assert(w.bots[k].1 == seq![c]);
        assert(w.bots[k].1[0] == c);
    }
}

/// A bot that a connection reports online and then offline, where that
/// connection did not serve it before, leaves the registry as it was.
pub proof fn law_online_then_offline<T>(v: BotMapView<T>, c: usize, k: (Seq<char>, Seq<char>), implt: Seq<char>)
    requires
        v.wf(),
        v.conns.contains_key(c),
        !v.conns[c].1.contains(k),
    ensures
        v.after_update(c, seq![(k, true), (k, false)], implt) == v,
{
    let items = seq![(k, true), (k, false)];
    assert(items.drop_last() =~= seq![(k, true)]);
    assert(items.drop_last().drop_last() =~= Seq::<((Seq<char>, Seq<char>), bool)>::empty());
    let w1 = v.update_one(c, k, true, implt);
    let w2 = w1.update_one(c, k, false, implt);
    assert(v.after_update(c, items.drop_last().drop_last(), implt) == v);
    assert(v.after_update(c, items.drop_last(), implt) == w1);
    assert(v.after_update(c, items, implt) == w2);
    assert(w1.conns[c].1.contains(k));
    assert(w1.conns[c].1.remove(k) =~= v.conns[c].1);
    assert(w2.conns =~= v.conns);
    if v.bots.contains_key(k) {
        let l = v.bots[k].1;
        assert(!l.contains(c)) by {
            if l.contains(c) {
                let i = choose|i: int| 0 <= i < l.len() && l[i] == c;
                assert(v.conns[l[i]].1.contains(k));
            }
        }
        l.lemma_filter_push(c, other_than(c));
        lemma_without_absent(l, c);
        assert(without(l.push(c), c) == l);
        assert(w2.bots =~= v.bots);
    } else {
        let l = seq![c];
        assert(l =~= Seq::<usize>::empty().push(c));
        Seq::<usize>::empty().lemma_filter_push(c, other_than(c));
        reveal(Seq::filter);
        assert(without(l, c).len() == 0);
        assert(w2.bots =~= v.bots);
    }
}

/// In a consistent registry a bot is known exactly when some connection
/// serves it.
pub proof fn law_known_iff_served<T>(v: BotMapView<T>, k: (Seq<char>, Seq<char>))
    requires
        v.wf(),
    ensures
        v.bots.contains_key(k) <==> exists|c: usize| v.conns.contains_key(c) && #[trigger] v.conns[c].1.contains(k),
{
    if v.bots.contains_key(k) {
        let c = v.bots[k].1[0];
        assert(v.conns.contains_key(c) && v.conns[c].1.contains(k));
    }
}


/// A connection opened for one delivery, on which one bot is reported
/// online, leaves the registry's bots and connections as they were once
/// it is closed.
pub proof fn law_delivery_leaves_registry<T>(v: BotMapView<T>, tx: T, k: (Seq<char>, Seq<char>), implt: Seq<char>)
    requires
        v.wf(),
        v.conn_seq < usize::MAX,
    ensures
        ({
            let c = v.conn_seq as usize;
            let w = v.after_connect(tx).after_update(c, seq![(k, true)], implt).after_close(c);
            w.bots == v.bots && w.conns == v.conns
        }),
{
    let c = v.conn_seq as usize;
    let v1 = v.after_connect(tx);
    lemma_connect_wf(v, tx);
    let items = seq![(k, true)];
    assert(items.drop_last() =~= Seq::<((Seq<char>, Seq<char>), bool)>::empty());
    assert(v1.after_update(c, items.drop_last(), implt) == v1);
    let v2 = v1.update_one(c, k, true, implt);
    assert(v1.after_update(c, items, implt) == v2);
    assert(!v.conns.contains_key(c));
    assert(v1.conns[c].1 == Set::<(Seq<char>, Seq<char>)>::empty());
    assert(v2.conns[c].1 =~= Set::<(Seq<char>, Seq<char>)>::empty().insert(k));
    let w = v2.after_close(c);
    assert(w.conns =~= v.conns);
    assert forall|q: (Seq<char>, Seq<char>)| #[trigger] w.bots.contains_key(q) == v.bots.contains_key(q) && (w.bots.contains_key(q) ==> w.bots[q] == v.bots[q]) by {
        if q == k {
            if v.bots.contains_key(k) {
                let l = v.bots[k].1;
                assert(!l.contains(c)) by {
                    if l.contains(c) {
                        let i = choose|i: int| 0 <= i < l.len() && l[i] == c;
                        assert(v.conns.contains_key(l[i]));
                    }
                }
                l.lemma_filter_push(c, other_than(c));
                lemma_without_absent(l, c);
                assert(without(l.push(c), c) == l);
            } else {
                Seq::<usize>::empty().lemma_filter_push(c, other_than(c));
                reveal(Seq::filter);
                assert(seq![c] =~= Seq::<usize>::empty().push(c));
                assert(without(seq![c], c).len() == 0);
            }
        }
    }
    assert(w.bots =~= v.bots);
}
} // verus!

verus! {

/// A bot-table entry, or `None` where the bot is absent.
pub type BotEntry = Option<(Seq<char>, Seq<usize>)>;

/// The entry of bot `k` in the table.
pub open spec fn bot_entry(bots: Map<(Seq<char>, Seq<char>), (Seq<char>, Seq<usize>)>, k: (Seq<char>, Seq<char>)) -> BotEntry {
    if bots.contains_key(k) { Some(bots[k]) } else { None }
}

/// The entry of one bot after connection `c` reports it online or
/// offline; `member` says whether `c` served it before.
pub open spec fn step_entry(e: BotEntry, member: bool, online: bool, c: usize, implt: Seq<char>) -> BotEntry {
    if online && !member {
        match e {
            Some(v) => Some((v.0, v.1.push(c))),
            None => Some((implt, seq![c])),
        }
    } else if !online && member {
        match e {
            Some(v) => if without(v.1, c).len() > 0 { Some((v.0, without(v.1, c))) } else { None },
            None => None,
        }
    } else {
        e
    }
}

} // verus!

verus! {

/// The state of one bot as seen from connection `c`: its table entry and
/// whether `c` serves it.
pub type KeyState = (BotEntry, bool);

/// One report of the bot, online or offline.
pub open spec fn key_step(s: KeyState, online: bool, c: usize, implt: Seq<char>) -> KeyState {
    (step_entry(s.0, s.1, online, c, implt), online)
}

/// What the reports `flags` of one bot, in order, make of its state.
pub open spec fn key_fold(s: KeyState, flags: Seq<bool>, c: usize, implt: Seq<char>) -> KeyState
    decreases flags.len(),
{
    if flags.len() == 0 {
        s
    } else {
        key_step(key_fold(s, flags.drop_last(), c, implt), flags.last(), c, implt)
    }
}

/// The reports a list of items makes of bot `k`, in order.
pub open spec fn key_flags(items: Seq<((Seq<char>, Seq<char>), bool)>, k: (Seq<char>, Seq<char>)) -> Seq<bool>
    decreases items.len(),
{
    if items.len() == 0 {
        Seq::empty()
    } else if items.last().0 == k {
        key_flags(items.drop_last(), k).push(items.last().1)
    } else {
        key_flags(items.drop_last(), k)
    }
}

/// The state of bot `k` in the registry, as seen from connection `c`.
pub open spec fn key_state<T>(v: BotMapView<T>, c: usize, k: (Seq<char>, Seq<char>)) -> KeyState {
    (bot_entry(v.bots, k), v.conns[c].1.contains(k))
}

/// A consistent state: `c` serves the bot exactly when it is in the bot's
/// list, and a listed bot has a non-empty list.
pub open spec fn key_ok(s: KeyState, c: usize) -> bool {
    &&& s.1 == (s.0 is Some && served_list(s.0).contains(c))
    &&& s.0 is Some ==> served_list(s.0).len() > 0
}

/// The connections serving a bot, empty for an absent bot.
pub open spec fn served_list(e: BotEntry) -> Seq<usize> {
    match e {
        Some(v) => v.1,
        None => Seq::empty(),
    }
}

/// The state after `c` stops serving the bot.
pub open spec fn key_drop(s: KeyState, c: usize, implt: Seq<char>) -> KeyState {
    key_step(s, false, c, implt)
}

proof fn lemma_key_step_ok(s: KeyState, b: bool, c: usize, implt: Seq<char>)
    requires
        key_ok(s, c),
    ensures
        key_ok(key_step(s, b, c, implt), c),
        key_drop(key_step(s, b, c, implt), c, implt) == key_drop(s, c, implt),
{
    lemma_without(seq![c], c);
    match s.0 {
        Some(v) => {
            lemma_without(v.1, c);
            lemma_without(v.1.push(c), c);
            lemma_without(without(v.1, c), c);
            if b && !s.1 {
                assert(without(v.1.push(c), c) == without(v.1, c)) by {
                    v.1.lemma_filter_push(c, other_than(c));
                }
                assert(v.1.push(c)[v.1.len() as int] == c);
                assert(without(v.1, c) =~= v.1) by {
                    lemma_without_absent(v.1, c);
                }
            }
            if !b && s.1 {
                if without(v.1, c).len() > 0 {
                    assert(without(without(v.1, c), c) =~= without(v.1, c)) by {
                        lemma_without_absent(without(v.1, c), c);
                    }
                }
            }
            if !b && !s.1 {
            }
        },
        None => {
            assert(seq![c][0] == c);
            if b && !s.1 {
                assert(without(seq![c], c).len() == 0) by {
                    if without(seq![c], c).len() > 0 {
                        assert(without(seq![c], c).contains(without(seq![c], c)[0]));
                    }
                }
            }
        },
    }
}

} // verus!

verus! {

proof fn lemma_key_fold_ok(s: KeyState, f: Seq<bool>, c: usize, implt: Seq<char>)
    requires
        key_ok(s, c),
    ensures
        key_ok(key_fold(s, f, c, implt), c),
        key_drop(key_fold(s, f, c, implt), c, implt) == key_drop(s, c, implt),
    decreases f.len(),
{
    if f.len() > 0 {
        lemma_key_fold_ok(s, f.drop_last(), c, implt);
        lemma_key_step_ok(key_fold(s, f.drop_last(), c, implt), f.last(), c, implt);
    }
}

proof fn lemma_key_fold_after_drop(s: KeyState, f: Seq<bool>, c: usize, implt: Seq<char>)
    requires
        key_ok(s, c),
        f.contains(false),
    ensures
        key_fold(s, f, c, implt) == key_fold(key_drop(s, c, implt), f, c, implt),
    decreases f.len(),
{
    let p = f.drop_last();
    lemma_key_step_ok(s, false, c, implt);
    if p.contains(false) {
        lemma_key_fold_after_drop(s, p, c, implt);
    } else {
        assert(f.last() == false) by {
            let i = choose|i: int| 0 <= i < f.len() && f[i] == false;
            if i < f.len() - 1 {
                assert(p[i] == f[i]);
            }
        }
        lemma_key_fold_ok(s, p, c, implt);
        lemma_key_fold_ok(key_drop(s, c, implt), p, c, implt);
    }
}

proof fn lemma_key_fold_all_online(s: KeyState, f: Seq<bool>, c: usize, implt: Seq<char>)
    requires
        f.len() > 0,
        !f.contains(false),
    ensures
        key_fold(s, f, c, implt) == key_step(s, true, c, implt),
    decreases f.len(),
{
    let p = f.drop_last();
    assert(f.last() == true) by {
        if !f.last() {
            assert(f[f.len() - 1] == false);
        }
    }
    if p.len() > 0 {
        assert(!p.contains(false)) by {
            if p.contains(false) {
                let i = choose|i: int| 0 <= i < p.len() && p[i] == false;
                assert(f[i] == false);
            }
        }
        lemma_key_fold_all_online(s, p, c, implt);
    }
}

proof fn lemma_key_fold_twice(s: KeyState, f: Seq<bool>, c: usize, implt: Seq<char>)
    requires
        key_ok(s, c),
    ensures
        key_fold(key_fold(s, f, c, implt), f, c, implt) == key_fold(s, f, c, implt),
{
    let once = key_fold(s, f, c, implt);
    lemma_key_fold_ok(s, f, c, implt);
    if f.contains(false) {
        lemma_key_fold_after_drop(once, f, c, implt);
        lemma_key_fold_after_drop(s, f, c, implt);
    } else if f.len() > 0 {
        lemma_key_fold_all_online(s, f, c, implt);
        lemma_key_fold_all_online(once, f, c, implt);
    } else {
        assert(once == s);
    }
}

} // verus!

verus! {

proof fn lemma_update_per_key<T>(v: BotMapView<T>, c: usize, items: Seq<((Seq<char>, Seq<char>), bool)>, implt: Seq<char>)
    requires
        v.conns.contains_key(c),
    ensures
        v.after_update(c, items, implt).conn_seq == v.conn_seq,
        v.after_update(c, items, implt).conns.dom() == v.conns.dom(),
        v.after_update(c, items, implt).conns[c].0 == v.conns[c].0,
        forall|c2: usize| #[trigger] v.conns.contains_key(c2) && c2 != c
            ==> v.after_update(c, items, implt).conns[c2] == v.conns[c2],
        forall|k: (Seq<char>, Seq<char>)| #[trigger] key_state(v.after_update(c, items, implt), c, k)
            == key_fold(key_state(v, c, k), key_flags(items, k), c, implt),
    decreases items.len(),
{
    if items.len() > 0 {
        let p = items.drop_last();
        let x = items.last();
        lemma_update_per_key(v, c, p, implt);
        let s = v.after_update(c, p, implt);
        let u = s.update_one(c, x.0, x.1, implt);
        assert(u == v.after_update(c, items, implt));
        assert(s.conns.contains_key(c));
        assert forall|k: (Seq<char>, Seq<char>)| #[trigger] key_state(u, c, k)
            == key_fold(key_state(v, c, k), key_flags(items, k), c, implt) by {
            assert(key_state(s, c, k) == key_fold(key_state(v, c, k), key_flags(p, k), c, implt));
            if k == x.0 {
                assert(key_flags(items, k) == key_flags(p, k).push(x.1));
                assert(key_flags(items, k).drop_last() =~= key_flags(p, k));
                assert(key_state(u, c, k) == key_step(key_state(s, c, k), x.1, c, implt));
            } else {
                assert(key_flags(items, k) == key_flags(p, k));
                assert(key_state(u, c, k) == key_state(s, c, k));
            }
        }
        assert(u.conns.dom() =~= v.conns.dom());
    }
}

/// A connection that reports the same bots twice in a row leaves the
/// registry as the first report did: no connection is listed twice for a
/// bot, and no bot or connection changes.
pub proof fn law_report_twice<T>(v: BotMapView<T>, c: usize, items: Seq<((Seq<char>, Seq<char>), bool)>, implt: Seq<char>)
    requires
        v.wf(),
        v.conns.contains_key(c),
    ensures
        v.after_update(c, items, implt).after_update(c, items, implt) == v.after_update(c, items, implt),
{
    let once = v.after_update(c, items, implt);
    lemma_update_per_key(v, c, items, implt);
    lemma_update_per_key(once, c, items, implt);
    let twice = once.after_update(c, items, implt);
    assert forall|k: (Seq<char>, Seq<char>)| #[trigger] key_state(twice, c, k) == key_state(once, c, k) by {
        let s = key_state(v, c, k);
        assert(key_ok(s, c)) by {
            if s.1 {
                assert(v.conns[c].1.contains(k));
            }
            if v.bots.contains_key(k) && v.bots[k].1.contains(c) {
                let i = choose|i: int| 0 <= i < v.bots[k].1.len() && v.bots[k].1[i] == c;
                assert(v.conns.contains_key(v.bots[k].1[i]));
            }
        }
        lemma_key_fold_twice(s, key_flags(items, k), c, implt);
        assert(key_state(once, c, k) == key_fold(s, key_flags(items, k), c, implt));
    }
    assert(twice.bots =~= once.bots) by {
        assert forall|k: (Seq<char>, Seq<char>)| #[trigger] twice.bots.contains_key(k) == once.bots.contains_key(k)
            && (twice.bots.contains_key(k) ==> twice.bots[k] == once.bots[k]) by {
            assert(key_state(twice, c, k) == key_state(once, c, k));
        }
    }
    assert(twice.conns[c].1 =~= once.conns[c].1) by {
        assert forall|k: (Seq<char>, Seq<char>)| #[trigger] twice.conns[c].1.contains(k) == once.conns[c].1.contains(k) by {
            assert(key_state(twice, c, k) == key_state(once, c, k));
        }
    }
    assert(twice.conns =~= once.conns) by {
        assert forall|c2: usize| #[trigger] twice.conns.contains_key(c2) implies twice.conns[c2] == once.conns[c2] by {
            if c2 == c {
                assert(twice.conns[c].0 == once.conns[c].0);
            }
        }
    }
}

} // verus!
