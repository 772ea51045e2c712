//! Bounded per-key measurement histories: each key keeps its most recent
//! measurements, oldest first.

use vstd::prelude::*;
use crate::keyed::{KeyedStore, TableKey};

verus! {

/// `s` with `x` appended, dropping the oldest element when the result holds
/// more than `cap` elements.
pub open spec fn bounded_push<T>(s: Seq<T>, x: T, cap: nat) -> Seq<T> {
    if s.len() + 1 > cap {
        s.push(x).drop_first()
    } else {
        s.push(x)
    }
}

/// Appends `x` to `v`, then drops the oldest element if `v` holds more than
/// `cap` elements.
pub fn push_bounded<T>(v: &mut Vec<T>, x: T, cap: usize)
    ensures
        final(v)@ == bounded_push(old(v)@, x, cap as nat),
{
    v.push(x);
    if v.len() > cap {
        v.remove(0);
        proof {
            assert(v@ =~= old(v)@.push(x).drop_first());
        }
    }
}

/// A history never grows past its capacity: pushing onto a history of at
/// most `cap` elements (with `cap` at least one) gives one of at most `cap`
/// elements that ends with the new element and keeps the older ones in
/// order.
pub proof fn lemma_bounded_push_keeps_bound<T>(s: Seq<T>, x: T, cap: nat)
    requires
        1 <= cap,
        s.len() <= cap,
    ensures
        bounded_push(s, x, cap).len() <= cap,
        bounded_push(s, x, cap).last() == x,
        bounded_push(s, x, cap).drop_last() == (if s.len() == cap {
            s.drop_first()
        } else {
            s
        }),
{
    assert(s.push(x).drop_last() =~= s);
    if s.len() == cap {
        assert(s.push(x).drop_first().drop_last() =~= s.drop_first());
    }
}

/// The last `min(n, len)` elements of `v`, oldest first.
pub fn tail_window<T: Copy>(v: &Vec<T>, n: usize) -> (r: Vec<T>)
    ensures
        r@ == v@.subrange(
            if v.len() >= n {
                v.len() - n
            } else {
                0
            },
            v.len() as int,
        ),
{
    let start: usize = if v.len() >= n {
        v.len() - n
    } else {
        0
    };
    let mut r: Vec<T> = Vec::new();
    let mut i: usize = start;
    while i < v.len()
        invariant
            start <= i <= v.len(),
            r@ == v@.subrange(start as int, i as int),
        decreases v.len() - i,
    {
        r.push(v[i]);
        i = i + 1;
        proof {
            assert(r@ =~= v@.subrange(start as int, i as int));
        }
    }
    r
}

/// Measurement histories by text key.
pub struct KeyedHistory<T> {
    series: KeyedStore<String, Vec<T>>,
}

impl<T> KeyedHistory<T> {
    pub closed spec fn wf(&self) -> bool {
        self.series.wf()
    }

    /// The history of each key, oldest first.
    pub closed spec fn view(&self) -> Map<Seq<char>, Seq<T>> {
        Map::new(
            |k: Seq<char>| self.series@.contains_key(seq![k]),
            |k: Seq<char>| self.series@[seq![k]]@,
        )
    }

    /// No history yet.
    pub fn new() -> (r: Self)
        ensures
            r.wf(),
            r@ == Map::<Seq<char>, Seq<T>>::empty(),
    {
        let r = KeyedHistory { series: KeyedStore::new() };
        proof {
            assert(r@ =~= Map::<Seq<char>, Seq<T>>::empty());
        }
        r
    }

    /// Appends `x` to the history of `key` (starting it if needed), keeping
    /// at most `cap` elements by dropping the oldest one.
    pub fn record(&mut self, key: String, x: T, cap: usize)
        requires
            old(self).wf(),
        ensures
            final(self).wf(),
            final(self)@ == old(self)@.insert(
                key@,
                bounded_push(
                    if old(self)@.contains_key(key@) {
                        old(self)@[key@]
                    } else {
                        Seq::empty()
                    },
                    x,
                    cap as nat,
                ),
            ),
    {
        let ghost k = key@;
        proof {
            assert(key.key_view() == seq![k]);
        }
        let mut items = match self.series.remove(&key) {
            Some(v) => v,
            None => Vec::new(),
        };
        let ghost prior = items@;
        push_bounded(&mut items, x, cap);
        self.series.insert(key, items);
        proof {
            assert forall|q: Seq<char>| #![auto] seq![q] == seq![k] ==> q == k by {
                if seq![q] == seq![k] {
                    assert(seq![q][0] == seq![k][0]);
                }
            }
            assert(prior == (if old(self)@.contains_key(k) {
                old(self)@[k]
            } else {
                Seq::<T>::empty()
            }));
            assert(self@ =~= old(self)@.insert(k, bounded_push(prior, x, cap as nat)));
        }
    }

    /// The history of `key`, if it has one.
    pub fn get(&self, key: &String) -> (r: Option<&Vec<T>>)
        requires
            self.wf(),
        ensures
            match r {
                Some(v) => self@.contains_key(key@) && v@ == self@[key@],
                None => !self@.contains_key(key@),
            },
    {
        proof {
            assert(key.key_view() == seq![key@]);
        }
        self.series.get(key)
    }
}

} // verus!
