//! A table from keys made of text parts to values, with at most one entry
//! per key. It holds the service's per-key state: alarm cooldowns,
//! measurement histories, blade health summaries and strain readings.

use vstd::prelude::*;

verus! {

/// A key whose identity is a list of texts.
pub trait TableKey: Sized {
    /// The texts that identify the key.
    spec fn key_view(&self) -> Seq<Seq<char>>;

    /// Whether two keys are the same key.
    fn same_key(&self, other: &Self) -> (r: bool)
        ensures
            r == (self.key_view() == other.key_view()),
    ;
}

impl TableKey for String {
    open spec fn key_view(&self) -> Seq<Seq<char>> {
        seq![self@]
    }

    fn same_key(&self, other: &Self) -> (r: bool) {
        let r = *self == *other;
        proof {
            if self.key_view() == other.key_view() {
                assert(self.key_view()[0] == other.key_view()[0]);
            }
        }
        r
    }
}

/// Key of one blade: its turbine and its blade letter.
pub struct BladeKey {
    pub turbine_id: String,
    pub blade_id: String,
}

impl TableKey for BladeKey {
    open spec fn key_view(&self) -> Seq<Seq<char>> {
        seq![self.turbine_id@, self.blade_id@]
    }

    fn same_key(&self, other: &Self) -> (r: bool) {
        let r = self.turbine_id == other.turbine_id && self.blade_id == other.blade_id;
        proof {
            if self.key_view() == other.key_view() {
                assert(self.key_view()[0] == other.key_view()[0]);
                assert(self.key_view()[1] == other.key_view()[1]);
            }
            if r {
                assert(self.key_view() =~= other.key_view());
            }
        }
        r
    }
}

/// The key of a blade, as a table key view.
pub open spec fn blade_key_view(turbine_id: Seq<char>, blade_id: Seq<char>) -> Seq<Seq<char>> {
    seq![turbine_id, blade_id]
}

/// Blade keys are equal exactly when their turbines and blades are.
pub proof fn lemma_blade_key_parts(t1: Seq<char>, b1: Seq<char>, t2: Seq<char>, b2: Seq<char>)
    ensures
        blade_key_view(t1, b1) == blade_key_view(t2, b2) <==> (t1 == t2 && b1 == b2),
{
    if blade_key_view(t1, b1) == blade_key_view(t2, b2) {
        assert(blade_key_view(t1, b1)[0] == blade_key_view(t2, b2)[0]);
        assert(blade_key_view(t1, b1)[1] == blade_key_view(t2, b2)[1]);
    }
}

/// Entries in insertion order, at most one per key.
pub struct KeyedStore<K, V> {
    keys: Vec<K>,
    vals: Vec<V>,
}

impl<K: TableKey, V> KeyedStore<K, V> {
    /// The keys, in the order of the entries.
    pub closed spec fn key_list(&self) -> Seq<Seq<Seq<char>>> {
        self.keys@.map_values(|k: K| k.key_view())
    }

    /// The values, in the order of the entries.
    pub closed spec fn value_list(&self) -> Seq<V> {
        self.vals@
    }

    /// Well-formedness: one value per key, no key twice.
    pub closed spec fn wf(&self) -> bool {
        &&& self.keys.len() == self.vals.len()
        &&& forall|i: int, j: int|
            0 <= i < j < self.keys.len() ==> self.keys[i].key_view() != self.keys[j].key_view()
    }

    spec fn holds_at(&self, kv: Seq<Seq<char>>, i: int) -> bool {
        0 <= i < self.keys.len() && self.keys[i].key_view() == kv
    }

    /// The table as a map from keys to values.
    pub closed spec fn view(&self) -> Map<Seq<Seq<char>>, V> {
        Map::new(
            |kv: Seq<Seq<char>>| exists|i: int| #[trigger] self.holds_at(kv, i),
            |kv: Seq<Seq<char>>| self.vals[choose|i: int| #[trigger] self.holds_at(kv, i)],
        )
    }

    proof fn lemma_at(&self, i: int)
        requires
            self.wf(),
            0 <= i < self.keys.len(),
        ensures
            self@.contains_key(self.keys[i].key_view()),
            self@[self.keys[i].key_view()] == self.vals[i],
    {
        let kv = self.keys[i].key_view();
        assert(self.holds_at(kv, i));
        let j = choose|j: int| #[trigger] self.holds_at(kv, j);
        assert(j == i);
    }

    proof fn lemma_absent(&self, kv: Seq<Seq<char>>)
        requires
            forall|i: int| 0 <= i < self.keys.len() ==> self.keys[i].key_view() != kv,
        ensures
            !self@.contains_key(kv),
    {
    }

    /// Facts linking the map view and the entry lists.
    pub proof fn lemma_lists(&self)
        requires
            self.wf(),
        ensures
            self.key_list().len() == self.value_list().len(),
            forall|i: int, j: int|
                0 <= i < j < self.key_list().len() ==> self.key_list()[i] != self.key_list()[j],
            forall|i: int|
                0 <= i < self.key_list().len() ==> self@.contains_key(#[trigger] self.key_list()[i])
                    && self@[self.key_list()[i]] == self.value_list()[i],
            forall|kv: Seq<Seq<char>>|
                #[trigger] self@.contains_key(kv) ==> exists|i: int|
                    0 <= i < self.key_list().len() && #[trigger] self.key_list()[i] == kv,
    {
        assert forall|i: int|
            0 <= i < self.key_list().len() implies self@.contains_key(
                #[trigger] self.key_list()[i],
            ) && self@[self.key_list()[i]] == self.value_list()[i] by {
            self.lemma_at(i);
        }
        assert forall|kv: Seq<Seq<char>>| #[trigger] self@.contains_key(kv) implies exists|i: int|
            0 <= i < self.key_list().len() && #[trigger] self.key_list()[i] == kv by {
            let i = choose|i: int| #[trigger] self.holds_at(kv, i);
            assert(self.key_list()[i] == kv);
        }
    }

    /// An empty table.
    pub fn new() -> (r: Self)
        ensures
            r.wf(),
            r@ == Map::<Seq<Seq<char>>, V>::empty(),
            r.key_list().len() == 0,
    {
        let r = KeyedStore { keys: Vec::new(), vals: Vec::new() };
        proof {
            assert(r@ =~= Map::<Seq<Seq<char>>, V>::empty());
            assert(r.key_list() =~= Seq::<Seq<Seq<char>>>::empty());
        }
        r
    }

    /// Number of entries.
    pub fn len(&self) -> (r: usize)
        requires
            self.wf(),
        ensures
            r == self.key_list().len(),
            r == self@.dom().len(),
    {
        proof {
            self.lemma_dom_len();
        }
        self.keys.len()
    }

    pub proof fn lemma_dom_len(&self)
        requires
            self.wf(),
        ensures
            self@.dom().finite(),
            self@.dom().len() == self.key_list().len(),
    {
        let kl = self.key_list();
        self.lemma_lists();
        assert(self@.dom() =~= kl.to_set());
        assert(kl.no_duplicates()) by {
            assert forall|i: int, j: int| 0 <= i < kl.len() && 0 <= j < kl.len() && i != j
                implies kl[i] != kl[j] by {
                if i < j {
                } else {
                }
            }
        }
        kl.unique_seq_to_set();
    }

    /// Position of the entry for `k`, if any.
    fn position(&self, k: &K) -> (r: Option<usize>)
        requires
            self.wf(),
        ensures
            match r {
                Some(p) => p < self.keys.len() && self.keys[p as int].key_view() == k.key_view(),
                None => forall|i: int|
                    0 <= i < self.keys.len() ==> self.keys[i].key_view() != k.key_view(),
            },
    {
        let mut p: usize = 0;
        while p < self.keys.len()
            invariant
                p <= self.keys.len(),
                forall|i: int| 0 <= i < p ==> self.keys[i].key_view() != k.key_view(),
            decreases self.keys.len() - p,
        {
            if self.keys[p].same_key(k) {
                return Some(p);
            }
            p = p + 1;
        }
        None
    }

    /// Whether the table has an entry for `k`.
    pub fn contains(&self, k: &K) -> (r: bool)
        requires
            self.wf(),
        ensures
            r == self@.contains_key(k.key_view()),
    {
        match self.position(k) {
            Some(p) => {
                proof {
                    self.lemma_at(p as int);
                }
                true
            },
            None => false,
        }
    }

    /// The value stored for `k`, if any.
    pub fn get(&self, k: &K) -> (r: Option<&V>)
        requires
            self.wf(),
        ensures
            match r {
                Some(v) => self@.contains_key(k.key_view()) && *v == self@[k.key_view()],
                None => !self@.contains_key(k.key_view()),
            },
    {
        match self.position(k) {
            Some(p) => {
                proof {
                    self.lemma_at(p as int);
                }
                Some(&self.vals[p])
            },
            None => None,
        }
    }

    /// Stores `v` for `k`, replacing the value stored for it before.
    pub fn insert(&mut self, k: K, v: V)
        requires
            old(self).wf(),
        ensures
            final(self).wf(),
            final(self)@ == old(self)@.insert(k.key_view(), v),
    {
        let ghost kv = k.key_view();
        let ghost before = *self;
        match self.position(&k) {
            Some(p) => {
                self.vals[p] = v;
                proof {
                    assert(self.keys@ == before.keys@);
                    assert(self.vals@ == before.vals@.update(p as int, v));
                    assert(self.wf());
                    assert forall|q: Seq<Seq<char>>|
                        #![trigger self@.contains_key(q)]
                        self@.contains_key(q) == before@.insert(kv, v).contains_key(q) && (
                        self@.contains_key(q) ==> self@[q] == before@.insert(kv, v)[q]) by {
                        if exists|i: int| #[trigger] self.holds_at(q, i) {
                            let i = choose|i: int| #[trigger] self.holds_at(q, i);
                            self.lemma_at(i);
                            before.lemma_at(i);
                            if i != p {
                                assert(self.vals[i] == before.vals[i]);
                                assert(before.keys[i].key_view() != before.keys[p as int].key_view());
                            }
                        } else {
                            if q == kv {
                                assert(self.holds_at(q, p as int));
                            }
                            if before@.contains_key(q) {
                                let i = choose|i: int| #[trigger] before.holds_at(q, i);
                                assert(self.holds_at(q, i));
                            }
                        }
                    }
                    assert(self@ =~= before@.insert(kv, v));
                }
            },
            None => {
                self.keys.push(k);
                self.vals.push(v);
                proof {
                    let n = before.keys.len() as int;
                    assert(self.keys@ == before.keys@.push(k));
                    assert(self.vals@ == before.vals@.push(v));
                    assert forall|i: int, j: int|
                        0 <= i < j < self.keys.len() implies self.keys[i].key_view()
                        != self.keys[j].key_view() by {
                        if j < n {
                            assert(self.keys[i] == before.keys[i]);
                            assert(self.keys[j] == before.keys[j]);
                        } else {
                            assert(self.keys[i] == before.keys[i]);
                        }
                    }
                    assert(self.wf());
                    assert forall|q: Seq<Seq<char>>|
                        #![trigger self@.contains_key(q)]
                        self@.contains_key(q) == before@.insert(kv, v).contains_key(q) && (
                        self@.contains_key(q) ==> self@[q] == before@.insert(kv, v)[q]) by {
                        if q == kv {
                            self.lemma_at(n);
                        } else if exists|i: int| #[trigger] before.holds_at(q, i) {
                            let i = choose|i: int| #[trigger] before.holds_at(q, i);
                            before.lemma_at(i);
                            assert(self.keys[i] == before.keys[i]);
                            assert(self.vals[i] == before.vals[i]);
                            assert(self.holds_at(q, i));
                            self.lemma_at(i);
                        } else {
                            if self@.contains_key(q) {
                                let i = choose|i: int| #[trigger] self.holds_at(q, i);
                                if i < n {
                                    assert(self.keys[i] == before.keys[i]);
                                    assert(before.holds_at(q, i));
                                }
                            }
                        }
                    }
                    assert(self@ =~= before@.insert(kv, v));
                }
            },
        }
    }

    /// Removes the entry at position `p`.
    fn remove_at(&mut self, p: usize) -> (r: V)
        requires
            old(self).wf(),
            p < old(self).keys.len(),
        ensures
            final(self).wf(),
            final(self).keys@ == old(self).keys@.remove(p as int),
            final(self).vals@ == old(self).vals@.remove(p as int),
            final(self)@ == old(self)@.remove(old(self).keys[p as int].key_view()),
            r == old(self).vals[p as int],
            r == old(self)@[old(self).keys[p as int].key_view()],
    {
        let ghost before = *self;
        let ghost kv = self.keys[p as int].key_view();
        proof {
            before.lemma_at(p as int);
        }
        let _gone = self.keys.remove(p);
        let v = self.vals.remove(p);
        proof {
            assert forall|i: int, j: int|
                0 <= i < j < self.keys.len() implies self.keys[i].key_view()
                != self.keys[j].key_view() by {
                let bi = if i < p {
                    i
                } else {
                    i + 1
                };
                let bj = if j < p {
                    j
                } else {
                    j + 1
                };
                assert(self.keys[i] == before.keys[bi]);
                assert(self.keys[j] == before.keys[bj]);
            }
            assert forall|q: Seq<Seq<char>>|
                #![trigger self@.contains_key(q)]
                self@.contains_key(q) == before@.remove(kv).contains_key(q) && (self@.contains_key(q)
                    ==> self@[q] == before@.remove(kv)[q]) by {
                if exists|i: int| #[trigger] self.holds_at(q, i) {
                    let i = choose|i: int| #[trigger] self.holds_at(q, i);
                    let bi = if i < p {
                        i
                    } else {
                        i + 1
                    };
                    assert(self.keys[i] == before.keys[bi]);
                    assert(self.vals[i] == before.vals[bi]);
                    self.lemma_at(i);
                    before.lemma_at(bi);
                } else if before@.contains_key(q) && q != kv {
                    let bi = choose|i: int| #[trigger] before.holds_at(q, i);
                    let i = if bi < p {
                        bi
                    } else {
                        bi - 1
                    };
                    assert(bi != p);
                    assert(self.keys[i] == before.keys[bi]);
                    assert(self.holds_at(q, i));
                }
            }
            assert(self@ =~= before@.remove(kv));
        }
        v
    }

    /// Removes the entry for `k`; returns its value if there was one.
    pub fn remove(&mut self, k: &K) -> (r: Option<V>)
        requires
            old(self).wf(),
        ensures
            final(self).wf(),
            final(self)@ == old(self)@.remove(k.key_view()),
            match r {
                Some(v) => old(self)@.contains_key(k.key_view()) && v == old(self)@[k.key_view()],
                None => !old(self)@.contains_key(k.key_view()),
            },
    {
        let ghost before = *self;
        match self.position(k) {
            Some(p) => {
                proof {
                    before.lemma_at(p as int);
                }
                let v = self.remove_at(p);
                Some(v)
            },
            None => {
                proof {
                    before.lemma_absent(k.key_view());
                    assert(self@ =~= before@.remove(k.key_view()));
                }
                None
            },
        }
    }

    /// The stored values, in the order of the entries.
    pub fn values(&self) -> (r: &Vec<V>)
        requires
            self.wf(),
        ensures
            r@ == self.value_list(),
    {
        &self.vals
    }
}

/// The entries of `m` whose time is less than `window` before `now`.
pub open spec fn recent_only(m: Map<Seq<Seq<char>>, i64>, now: int, window: int) -> Map<
    Seq<Seq<char>>,
    i64,
> {
    Map::new(|kv: Seq<Seq<char>>| m.contains_key(kv) && now - m[kv] < window, |kv| m[kv])
}

impl<K: TableKey> KeyedStore<K, i64> {
    spec fn position_of(&self, kv: Seq<Seq<char>>) -> int {
        choose|i: int| #[trigger] self.holds_at(kv, i)
    }

    /// Keeps only the entries whose time is less than `window` before `now`.
    pub fn retain_recent(&mut self, now: i64, window: i128)
        requires
            old(self).wf(),
        ensures
            final(self).wf(),
            final(self)@ == recent_only(old(self)@, now as int, window as int),
    {
        let ghost orig = *self;
        let mut i: usize = self.keys.len();
        while i > 0
            invariant
                self.wf(),
                orig.wf(),
                i <= self.keys.len(),
                i <= orig.keys.len(),
                forall|t: int| 0 <= t < i ==> #[trigger] self.keys[t] == orig.keys[t],
                forall|t: int| 0 <= t < i ==> #[trigger] self.vals[t] == orig.vals[t],
                forall|q: Seq<Seq<char>>|
                    #![trigger self@.contains_key(q)]
                    self@.contains_key(q) == (orig@.contains_key(q) && (orig.position_of(q) < i
                        || now - orig@[q] < window)),
                forall|q: Seq<Seq<char>>|
                    #![trigger self@.contains_key(q)]
                    self@.contains_key(q) ==> self@[q] == orig@[q],
            decreases i,
        {
            i = i - 1;
            let t = self.vals[i];
            let keep = (now as i128) - (t as i128) < window;
            let ghost before = *self;
            let ghost kv = self.keys[i as int].key_view();
            proof {
                before.lemma_at(i as int);
                orig.lemma_at(i as int);
                assert(orig.holds_at(kv, i as int));
                assert(orig.position_of(kv) == i) by {
                    let j = orig.position_of(kv);
                    assert(orig.holds_at(kv, j));
                }
            }
            if !keep {
                self.remove_at(i);
            }
            proof {
                if keep {
                    assert(self.keys@ == before.keys@);
                    assert(self.vals@ == before.vals@);
                } else {
                    assert(self.keys@ == before.keys@.remove(i as int));
                    assert(self.vals@ == before.vals@.remove(i as int));
                }
                assert forall|u: int| 0 <= u < i implies #[trigger] self.keys[u] == orig.keys[u]
                    && self.vals[u] == orig.vals[u] by {
                    assert(before.keys[u] == orig.keys[u]);
                    assert(before.vals[u] == orig.vals[u]);
                    assert(self.keys[u] == before.keys[u]);
                    assert(self.vals[u] == before.vals[u]);
                }
                assert forall|q: Seq<Seq<char>>|
                    #![trigger self@.contains_key(q)]
                    self@.contains_key(q) == (orig@.contains_key(q) && (orig.position_of(q) < i
                        || now - orig@[q] < window)) && (self@.contains_key(q) ==> self@[q]
                        == orig@[q]) by {
                    if orig@.contains_key(q) {
                        let j = orig.position_of(q);
                        assert(orig.holds_at(q, j));
                    }
                    if q == kv {
                    } else {
                        assert(before@.contains_key(q) == self@.contains_key(q));
                    }
                }
            }
        }
        proof {
            assert forall|q: Seq<Seq<char>>|
                #![trigger self@.contains_key(q)]
                self@.contains_key(q) == recent_only(orig@, now as int, window as int).contains_key(q)
                    && (self@.contains_key(q) ==> self@[q] == recent_only(
                    orig@,
                    now as int,
                    window as int,
                )[q]) by {
                if orig@.contains_key(q) {
                    let j = orig.position_of(q);
                    assert(orig.holds_at(q, j));
                }
            }
            assert(self@ =~= recent_only(orig@, now as int, window as int));
        }
    }
}

} // verus!
