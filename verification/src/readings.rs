//! Per-blade buffers of strain readings awaiting interpolation.

use vstd::prelude::*;
use crate::keyed::{KeyedStore, BladeKey, TableKey, blade_key_view, lemma_blade_key_parts};
use crate::errors::StrainInterpolatorError;
use crate::ids::{decimal, decimal_string};

verus! {

/// The readings of one blade and the time of the latest one.
pub struct ReadingSeries<T> {
    readings: Vec<T>,
    last_update: i64,
}

/// Number of readings needed for an interpolation.
pub const MIN_SENSORS: usize = 3;

/// Readings by blade.
pub struct ReadingBuffer<T> {
    table: KeyedStore<BladeKey, ReadingSeries<T>>,
}

impl<T> ReadingBuffer<T> {
    pub closed spec fn wf(&self) -> bool {
        self.table.wf()
    }

    /// The readings of each blade, oldest first, with the time of the
    /// latest one.
    pub closed spec fn view(&self) -> Map<(Seq<char>, Seq<char>), (Seq<T>, i64)> {
        Map::new(
            |k: (Seq<char>, Seq<char>)| self.table@.contains_key(blade_key_view(k.0, k.1)),
            |k: (Seq<char>, Seq<char>)|
                (
                    self.table@[blade_key_view(k.0, k.1)].readings@,
                    self.table@[blade_key_view(k.0, k.1)].last_update,
                ),
        )
    }

    proof fn lemma_view_insert(&self, before: &Self, t: Seq<char>, b: Seq<char>, v: ReadingSeries<T>)
        requires
            self.table@ == before.table@.insert(blade_key_view(t, b), v),
        ensures
            self@ == before@.insert((t, b), (v.readings@, v.last_update)),
    {
        assert forall|k: (Seq<char>, Seq<char>)| #![auto]
            self@.contains_key(k) == before@.insert((t, b), (v.readings@, v.last_update)).contains_key(k)
                && (self@.contains_key(k) ==> self@[k] == before@.insert(
                (t, b),
                (v.readings@, v.last_update),
            )[k]) by {
            lemma_blade_key_parts(k.0, k.1, t, b);
        }
        assert(self@ =~= before@.insert((t, b), (v.readings@, v.last_update)));
    }

    proof fn lemma_view_remove(&self, before: &Self, t: Seq<char>, b: Seq<char>)
        requires
            self.table@ == before.table@.remove(blade_key_view(t, b)),
        ensures
            self@ == before@.remove((t, b)),
    {
        assert forall|k: (Seq<char>, Seq<char>)| #![auto]
            self@.contains_key(k) == before@.remove((t, b)).contains_key(k) && (self@.contains_key(k)
                ==> self@[k] == before@.remove((t, b))[k]) by {
            lemma_blade_key_parts(k.0, k.1, t, b);
        }
        assert(self@ =~= before@.remove((t, b)));
    }

    /// No readings.
    pub fn new() -> (r: Self)
        ensures
            r.wf(),
            r@ == Map::<(Seq<char>, Seq<char>), (Seq<T>, i64)>::empty(),
    {
        let r = ReadingBuffer { table: KeyedStore::new() };
        proof {
            assert(r@ =~= Map::<(Seq<char>, Seq<char>), (Seq<T>, i64)>::empty());
        }
        r
    }

    /// Adds a reading of one blade taken at `timestamp`; returns whether the
    /// blade now has at least `threshold` readings, the point at which they
    /// are interpolated.
    pub fn push_reading(
        &mut self,
        turbine_id: &str,
        blade_id: &str,
        reading: T,
        timestamp: i64,
        threshold: usize,
    ) -> (r: bool)
        requires
            old(self).wf(),
        ensures
            final(self).wf(),
            final(self)@ == old(self)@.insert(
                (turbine_id@, blade_id@),
                (
                    if old(self)@.contains_key((turbine_id@, blade_id@)) {
                        old(self)@[(turbine_id@, blade_id@)].0
                    } else {
                        Seq::empty()
                    }.push(reading),
                    timestamp,
                ),
            ),
            r == (final(self)@[(turbine_id@, blade_id@)].0.len() >= threshold),
    {
        let ghost before = *self;
        let ghost t = turbine_id@;
        let ghost b = blade_id@;
        let key = BladeKey {
            turbine_id: String::from_str(turbine_id),
            blade_id: String::from_str(blade_id),
        };
        let mut readings = match self.table.remove(&key) {
            Some(series) => series.readings,
            None => Vec::new(),
        };
        readings.push(reading);
        let due = readings.len() >= threshold;
        let series = ReadingSeries { readings, last_update: timestamp };
        let ghost s = series;
        self.table.insert(key, series);
        proof {
            assert(self.table@ =~= before.table@.insert(blade_key_view(t, b), s));
            self.lemma_view_insert(&before, t, b, s);
        }
        due
    }

    /// The readings of one blade, if it has any entry.
    pub fn readings(&self, turbine_id: &str, blade_id: &str) -> (r: Option<&Vec<T>>)
        requires
            self.wf(),
        ensures
            match r {
                Some(v) => self@.contains_key((turbine_id@, blade_id@)) && v@ == self@[(
                    turbine_id@,
                    blade_id@,
                )].0,
                None => !self@.contains_key((turbine_id@, blade_id@)),
            },
    {
        let key = BladeKey {
            turbine_id: String::from_str(turbine_id),
            blade_id: String::from_str(blade_id),
        };
        match self.table.get(&key) {
            Some(series) => Some(&series.readings),
            None => None,
        }
    }

    /// Number of readings of one blade (zero without an entry).
    pub fn sensor_count(&self, turbine_id: &str, blade_id: &str) -> (r: usize)
        requires
            self.wf(),
        ensures
            r == if self@.contains_key((turbine_id@, blade_id@)) {
                self@[(turbine_id@, blade_id@)].0.len()
            } else {
                0
            },
    {
        match self.readings(turbine_id, blade_id) {
            Some(v) => v.len(),
            None => 0,
        }
    }

    /// Empties the readings of one blade after they were interpolated,
    /// keeping its entry and the time of its latest reading.
    pub fn clear_series(&mut self, turbine_id: &str, blade_id: &str)
        requires
            old(self).wf(),
        ensures
            final(self).wf(),
            final(self)@ == if old(self)@.contains_key((turbine_id@, blade_id@)) {
                old(self)@.insert(
                    (turbine_id@, blade_id@),
                    (Seq::empty(), old(self)@[(turbine_id@, blade_id@)].1),
                )
            } else {
                old(self)@
            },
    {
        let ghost before = *self;
        let ghost t = turbine_id@;
        let ghost b = blade_id@;
        let key = BladeKey {
            turbine_id: String::from_str(turbine_id),
            blade_id: String::from_str(blade_id),
        };
        match self.table.remove(&key) {
            Some(series) => {
                let emptied = ReadingSeries { readings: Vec::new(), last_update: series.last_update };
                let ghost s = emptied;
                self.table.insert(key, emptied);
                proof {
                    assert(self.table@ =~= before.table@.insert(blade_key_view(t, b), s));
                    self.lemma_view_insert(&before, t, b, s);
                }
            },
            None => {
                proof {
                    assert(self.table@ =~= before.table@);
                    assert(self@ =~= before@);
                }
            },
        }
    }

    /// Settles the readings of one blade after an interpolation attempt:
    /// they are emptied when the interpolation succeeded and stay buffered,
    /// untouched, when it failed.
    pub fn finish_interpolation(&mut self, turbine_id: &str, blade_id: &str, succeeded: bool)
        requires
            old(self).wf(),
        ensures
            final(self).wf(),
            final(self)@ == if succeeded && old(self)@.contains_key((turbine_id@, blade_id@)) {
                old(self)@.insert(
                    (turbine_id@, blade_id@),
                    (Seq::empty(), old(self)@[(turbine_id@, blade_id@)].1),
                )
            } else {
                old(self)@
            },
    {
        if succeeded {
            self.clear_series(turbine_id, blade_id);
        }
    }

    /// Forgets one blade: its readings and the time of its latest one.
    pub fn remove_blade(&mut self, turbine_id: &str, blade_id: &str)
        requires
            old(self).wf(),
        ensures
            final(self).wf(),
            final(self)@ == old(self)@.remove((turbine_id@, blade_id@)),
    {
        let ghost before = *self;
        let key = BladeKey {
            turbine_id: String::from_str(turbine_id),
            blade_id: String::from_str(blade_id),
        };
        let _ = self.table.remove(&key);
        proof {
            self.lemma_view_remove(&before, turbine_id@, blade_id@);
        }
    }
}

/// Detail text of a refused interpolation with `count` readings.
pub open spec fn insufficient_sensors_text(count: nat) -> Seq<char> {
    "传感器数量不足，需要至少3个，当前"@ + decimal(count) + "个"@
}

/// Refuses an interpolation from fewer than three readings.
pub fn check_sensor_count(count: usize) -> (r: Result<(), StrainInterpolatorError>)
    ensures
        count >= 3 <==> r is Ok,
        r matches Err(StrainInterpolatorError::InterpolationError(m)) ==> m@
            == insufficient_sensors_text(count as nat),
        r matches Err(e) ==> e is InterpolationError,
{
    if count < MIN_SENSORS {
        let mut m = String::from_str("传感器数量不足，需要至少3个，当前");
        let n = decimal_string(count as u64);
        m.append(n.as_str());
        m.append("个");
        Err(StrainInterpolatorError::InterpolationError(m))
    } else {
        Ok(())
    }
}

} // verus!
