//! Alarm cooldowns: once an alarm has been raised for a key, no alarm is
//! raised again for that key until the cooldown window has passed.

use vstd::prelude::*;
use crate::keyed::{KeyedStore, TableKey};
use crate::models::AlarmType;

verus! {

/// Nanoseconds in a minute.
pub const NANOS_PER_MINUTE: i128 = 60_000_000_000;

/// Cooldown of the alarm engine, in minutes.
pub const ENGINE_COOLDOWN_MINUTES: i64 = 30;

/// Age after which the alarm engine forgets a cooldown entry, in minutes.
pub const ENGINE_COOLDOWN_RETENTION_MINUTES: i64 = 60;

/// Whether a window of `minutes` minutes can be made into a chrono
/// duration (whose seconds are bounded by `i64::MAX / 1000`).
pub open spec fn minutes_in_range(minutes: int) -> bool {
    -(i64::MAX / 1000) <= minutes * 60 <= i64::MAX / 1000
}

/// Whether an alarm raised at `last` is still cooling down at `now`.
pub open spec fn cooling(last: int, now: int, minutes: int) -> bool {
    now - last < minutes * 60_000_000_000
}

/// The entries of `m` that are still cooling down at `now`.
pub open spec fn cooling_only(m: Map<Seq<char>, i64>, now: int, minutes: int) -> Map<Seq<char>, i64> {
    Map::new(|k: Seq<char>| m.contains_key(k) && cooling(m[k] as int, now, minutes), |k: Seq<char>| m[k])
}

/// Time of the last alarm per cooldown key, in nanoseconds since the epoch.
pub struct CooldownTracker {
    last_alarm: KeyedStore<String, i64>,
}

impl CooldownTracker {
    pub closed spec fn wf(&self) -> bool {
        self.last_alarm.wf()
    }

    /// Time of the last alarm of each key.
    pub closed spec fn view(&self) -> Map<Seq<char>, i64> {
        Map::new(
            |k: Seq<char>| self.last_alarm@.contains_key(seq![k]),
            |k: Seq<char>| self.last_alarm@[seq![k]],
        )
    }

    /// A tracker with no cooldown.
    pub fn new() -> (r: Self)
        ensures
            r.wf(),
            r@ == Map::<Seq<char>, i64>::empty(),
    {
        let r = CooldownTracker { last_alarm: KeyedStore::new() };
        proof {
            assert(r@ =~= Map::<Seq<char>, i64>::empty());
        }
        r
    }

    /// Whether `key` is cooling down at `now` for a window of `minutes`.
    pub fn is_in_cooldown_at(&self, key: &String, now: i64, minutes: i64) -> (r: bool)
        requires
            self.wf(),
            minutes_in_range(minutes as int),
        ensures
            r == (self@.contains_key(key@) && cooling(self@[key@] as int, now as int, minutes as int)),
    {
        proof {
            assert(key.key_view() == seq![key@]);
        }
        match self.last_alarm.get(key) {
            Some(last) => {
                (now as i128) - (*last as i128) < (minutes as i128) * NANOS_PER_MINUTE
            },
            None => false,
        }
    }

    /// Records an alarm for `key` at `now`.
    pub fn set_cooldown_at(&mut self, key: String, now: i64)
        requires
            old(self).wf(),
        ensures
            final(self).wf(),
            final(self)@ == old(self)@.insert(key@, now),
    {
        let ghost k = key@;
        proof {
            assert(key.key_view() == seq![k]);
        }
        let ghost before = self.last_alarm@;
        self.last_alarm.insert(key, now);
        proof {
            assert forall|q: Seq<char>| #![auto] seq![q] == seq![k] ==> q == k by {
                if seq![q] == seq![k] {
                    assert(seq![q][0] == seq![k][0]);
                }
            }
            assert(self@ =~= old(self)@.insert(k, now));
        }
    }

    /// Forgets every key whose last alarm is `minutes` or more before `now`.
    pub fn cleanup_at(&mut self, now: i64, minutes: i64)
        requires
            old(self).wf(),
            minutes_in_range(minutes as int),
        ensures
            final(self).wf(),
            final(self)@ == cooling_only(old(self)@, now as int, minutes as int),
    {
        let window = (minutes as i128) * NANOS_PER_MINUTE;
        self.last_alarm.retain_recent(now, window);
        proof {
            assert(self@ =~= cooling_only(old(self)@, now as int, minutes as int));
        }
    }

    /// Records the outcome of pushing an alarm for `key` raised at `now`:
    /// the cooldown starts only when the push succeeded; after a failed
    /// push the key is left as it was, so the next check raises it again.
    pub fn record_push_outcome(&mut self, key: String, now: i64, pushed: bool)
        requires
            old(self).wf(),
        ensures
            final(self).wf(),
            final(self)@ == if pushed {
                old(self)@.insert(key@, now)
            } else {
                old(self)@
            },
    {
        if pushed {
            self.set_cooldown_at(key, now);
        }
    }
}

/// Prefix of the cooldown keys of each alarm type.
pub open spec fn key_prefix(t: AlarmType) -> Seq<char> {
    match t {
        AlarmType::DelaminationRate => "delam_"@,
        AlarmType::FrequencyOffset => "freq_"@,
    }
}

/// The cooldown key of an alarm type on one blade section:
/// `<prefix><turbine>_<blade>_<section>`.
pub open spec fn cooldown_key_view(
    t: AlarmType,
    turbine_id: Seq<char>,
    blade_id: Seq<char>,
    section: Seq<char>,
) -> Seq<char> {
    key_prefix(t) + turbine_id + "_"@ + blade_id + "_"@ + section
}

/// Builds the cooldown key of an alarm type on one blade section.
pub fn cooldown_key(t: AlarmType, turbine_id: &str, blade_id: &str, section: &str) -> (r: String)
    ensures
        r@ == cooldown_key_view(t, turbine_id@, blade_id@, section@),
{
    let mut k = match t {
        AlarmType::DelaminationRate => String::from_str("delam_"),
        AlarmType::FrequencyOffset => String::from_str("freq_"),
    };
    k.append(turbine_id);
    k.append("_");
    k.append(blade_id);
    k.append("_");
    k.append(section);
    k
}

/// Whether `key` is cooling down at `now` in a table of last alarm times.
pub open spec fn in_cooldown(m: Map<Seq<char>, i64>, key: Seq<char>, now: int, minutes: int) -> bool {
    m.contains_key(key) && cooling(m[key] as int, now, minutes)
}

/// Whether a threshold check raises an alarm: the value exceeds its
/// threshold and the key is not cooling down.
pub open spec fn raise_decision(
    m: Map<Seq<char>, i64>,
    key: Seq<char>,
    exceeded: bool,
    now: int,
    minutes: int,
) -> bool {
    exceeded && !in_cooldown(m, key, now, minutes)
}

/// The decision taken on a threshold check: raise an alarm when the value
/// exceeds its threshold and the key is not cooling down.
pub fn should_raise_at(
    tracker: &CooldownTracker,
    key: &String,
    exceeded: bool,
    now: i64,
    minutes: i64,
) -> (r: bool)
    requires
        tracker.wf(),
        minutes_in_range(minutes as int),
    ensures
        r == raise_decision(tracker@, key@, exceeded, now as int, minutes as int),
{
    exceeded && !tracker.is_in_cooldown_at(key, now, minutes)
}

/// The alarm check that follows a finished one: the frequency-offset
/// check runs after a delamination-rate check that succeeded; after a
/// failed check, or after the frequency-offset check, no check follows.
pub open spec fn next_check_view(done: AlarmType, succeeded: bool) -> Option<AlarmType> {
    match done {
        AlarmType::DelaminationRate => if succeeded {
            Some(AlarmType::FrequencyOffset)
        } else {
            None
        },
        AlarmType::FrequencyOffset => None,
    }
}

/// The alarm check to run after `done` finished, given whether it
/// succeeded; the first check of a measurement is the delamination-rate
/// check.
pub fn next_check(done: AlarmType, succeeded: bool) -> (r: Option<AlarmType>)
    ensures
        r == next_check_view(done, succeeded),
{
    match done {
        AlarmType::DelaminationRate => if succeeded {
            Some(AlarmType::FrequencyOffset)
        } else {
            None
        },
        AlarmType::FrequencyOffset => None,
    }
}

} // verus!
