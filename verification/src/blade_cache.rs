//! The blade health cache: one health summary per blade, updated from the
//! strain readings and the damage features that arrive for it.

use vstd::prelude::*;
use crate::keyed::{KeyedStore, BladeKey, TableKey, blade_key_view, lemma_blade_key_parts};
use crate::models::BladeHealth;
use crate::statistics::trunc_div;
use crate::ids::{turbine_label, turbine_label_string, lemma_turbine_label_injective};

verus! {

/// The content of a blade health summary, texts as character sequences.
pub struct BladeHealthView {
    pub turbine_id: Seq<char>,
    pub blade_id: Seq<char>,
    pub health_score: i32,
    pub damage_type: Seq<char>,
    pub severity_level: u8,
    pub last_check: i64,
    pub root_health: Option<i32>,
    pub mid_health: Option<i32>,
    pub tip_health: Option<i32>,
}

impl View for BladeHealth {
    type V = BladeHealthView;

    open spec fn view(&self) -> BladeHealthView {
        BladeHealthView {
            turbine_id: self.turbine_id@,
            blade_id: self.blade_id@,
            health_score: self.health_score,
            damage_type: self.damage_type@,
            severity_level: self.severity_level,
            last_check: self.last_check,
            root_health: self.root_health,
            mid_health: self.mid_health,
            tip_health: self.tip_health,
        }
    }
}

/// The summary that a blade starts with: fully healthy, no damage,
/// checked at `now`.
pub open spec fn fresh_view(turbine_id: Seq<char>, blade_id: Seq<char>, now: i64) -> BladeHealthView {
    BladeHealthView {
        turbine_id,
        blade_id,
        health_score: 100,
        damage_type: "none"@,
        severity_level: 0,
        last_check: now,
        root_health: Some(100),
        mid_health: Some(100),
        tip_health: Some(100),
    }
}

/// Damage features of one blade section, as the cache reads them: the
/// health score and damage severity, the time of the measurement, and for
/// each damage mode whether its probability exceeds one half.
pub struct DamageSummary {
    pub turbine_id: String,
    pub blade_id: String,
    pub section: String,
    pub health_score: i32,
    pub damage_severity: i32,
    pub timestamp: i64,
    pub delamination_dominant: bool,
    pub fiber_dominant: bool,
    pub matrix_dominant: bool,
}

/// Damage label after a measurement: the first dominant mode in the order
/// delamination, fiber breakage, matrix cracking; unchanged if none is.
pub open spec fn label_after(before: Seq<char>, f: DamageSummary) -> Seq<char> {
    if f.delamination_dominant {
        "delamination"@
    } else if f.fiber_dominant {
        "fiber"@
    } else if f.matrix_dominant {
        "matrix"@
    } else {
        before
    }
}

/// Severity level of a damage severity score: a quarter of it, rounded
/// toward zero, truncated to a byte.
pub open spec fn severity_from_damage(d: i32) -> u8 {
    trunc_div(d as int, 25) as u8
}

/// The summary after a measurement of damage features: the lowest health
/// score seen, the measurement's time, the dominant damage label, the
/// severity level of the measurement, and the measured section's score.
pub open spec fn apply_view(before: BladeHealthView, f: DamageSummary) -> BladeHealthView {
    BladeHealthView {
        health_score: if f.health_score < before.health_score {
            f.health_score
        } else {
            before.health_score
        },
        last_check: f.timestamp,
        damage_type: label_after(before.damage_type, f),
        severity_level: severity_from_damage(f.damage_severity),
        root_health: if f.section@ == "root"@ {
            Some(f.health_score)
        } else {
            before.root_health
        },
        mid_health: if f.section@ == "mid"@ {
            Some(f.health_score)
        } else {
            before.mid_health
        },
        tip_health: if f.section@ == "tip"@ {
            Some(f.health_score)
        } else {
            before.tip_health
        },
        ..before
    }
}

/// Whether `r` lists the summaries of `m`, one per blade.
pub open spec fn lists_all(r: Seq<BladeHealth>, m: Map<(Seq<char>, Seq<char>), BladeHealthView>) -> bool {
    &&& r.len() == m.dom().len()
    &&& forall|i: int|
        0 <= i < r.len() ==> m.contains_key((r[i].turbine_id@, r[i].blade_id@)) && m[(
            r[i].turbine_id@,
            r[i].blade_id@,
        )] == #[trigger] r[i]@
    &&& forall|i: int, j: int|
        0 <= i < j < r.len() ==> (r[i].turbine_id@, r[i].blade_id@) != (
            r[j].turbine_id@,
            r[j].blade_id@,
        )
}

/// Letter of the `j`-th blade of a turbine.
pub open spec fn seed_blade(j: nat) -> Seq<char> {
    if j == 0 {
        "A"@
    } else if j == 1 {
        "B"@
    } else {
        "C"@
    }
}

/// Health score given to turbine number `n` when no data has arrived yet.
pub open spec fn seed_score(n: nat) -> i32 {
    (85 + n % 15) as i32
}

/// Summary given to blade `j` of turbine number `n` when no data has
/// arrived yet.
pub open spec fn seed_view(n: nat, j: nat, now: i64) -> BladeHealthView {
    let s = seed_score(n);
    BladeHealthView {
        turbine_id: turbine_label(n),
        blade_id: seed_blade(j),
        health_score: s,
        damage_type: if s < 70 {
            "matrix"@
        } else {
            "none"@
        },
        severity_level: if s < 70 {
            1
        } else {
            0
        },
        last_check: now,
        root_health: Some(s),
        mid_health: Some((s + 2) as i32),
        tip_health: Some((s - 1) as i32),
    }
}

/// Whether `m` holds exactly the default summaries of the three blades of
/// turbines WT001 to WT100, checked at `now`.
pub open spec fn seeded(m: Map<(Seq<char>, Seq<char>), BladeHealthView>, now: i64) -> bool {
    &&& m.dom().len() == 300
    &&& forall|n: nat, j: nat|
        1 <= n <= 100 && j < 3 ==> m.contains_key((turbine_label(n), seed_blade(j)))
            && m[(turbine_label(n), seed_blade(j))] == #[trigger] seed_view(n, j, now)
}

/// Health summaries by blade.
pub struct BladeHealthCache {
    table: KeyedStore<BladeKey, BladeHealth>,
}

impl BladeHealthCache {
    /// Every summary is stored under its own blade.
    pub closed spec fn wf(&self) -> bool {
        &&& self.table.wf()
        &&& forall|kv: Seq<Seq<char>>|
            #[trigger] self.table@.contains_key(kv) ==> kv == blade_key_view(
                self.table@[kv].turbine_id@,
                self.table@[kv].blade_id@,
            )
    }

    /// The summary of each blade, by turbine and blade.
    pub closed spec fn view(&self) -> Map<(Seq<char>, Seq<char>), BladeHealthView> {
        Map::new(
            |k: (Seq<char>, Seq<char>)| self.table@.contains_key(blade_key_view(k.0, k.1)),
            |k: (Seq<char>, Seq<char>)| self.table@[blade_key_view(k.0, k.1)]@,
        )
    }

    /// An empty cache.
    pub fn new() -> (r: Self)
        ensures
            r.wf(),
            r@ == Map::<(Seq<char>, Seq<char>), BladeHealthView>::empty(),
    {
        let r = BladeHealthCache { table: KeyedStore::new() };
        proof {
            assert(r@ =~= Map::<(Seq<char>, Seq<char>), BladeHealthView>::empty());
        }
        r
    }

    /// Number of blades with a summary.
    pub fn len(&self) -> (r: usize)
        requires
            self.wf(),
        ensures
            r == self@.dom().len(),
    {
        let r = self.table.len();
        proof {
            self.lemma_dom_len();
        }
        r
    }

    proof fn lemma_dom_len(&self)
        requires
            self.wf(),
        ensures
            self@.dom().len() == self.table@.dom().len(),
            self@.dom().finite(),
    {
        let f = |kv: Seq<Seq<char>>| (kv[0], kv[1]);
        self.table.lemma_lists();
        let kl = self.table.key_list();
        self.table.lemma_dom_len();
        assert(self@.dom() =~= self.table@.dom().map(f)) by {
            assert forall|k: (Seq<char>, Seq<char>)| self@.dom().contains(k) implies self.table@.dom().map(f).contains(k) by {
                let kv = blade_key_view(k.0, k.1);
                assert(f(kv) == k);
            }
            assert forall|k: (Seq<char>, Seq<char>)| self.table@.dom().map(f).contains(k) implies self@.dom().contains(k) by {
                let kv = choose|kv: Seq<Seq<char>>| self.table@.dom().contains(kv) && f(kv) == k;
                assert(kv == blade_key_view(self.table@[kv].turbine_id@, self.table@[kv].blade_id@));
            }
        }
        assert(vstd::relations::injective_on(f, self.table@.dom())) by {
            assert forall|x: Seq<Seq<char>>, y: Seq<Seq<char>>| self.table@.dom().contains(x) && self.table@.dom().contains(y) && #[trigger] f(x) == #[trigger] f(y) implies x == y by {
                assert(x == blade_key_view(self.table@[x].turbine_id@, self.table@[x].blade_id@));
                assert(y == blade_key_view(self.table@[y].turbine_id@, self.table@[y].blade_id@));
            }
        }
        vstd::set_lib::lemma_map_size(self.table@.dom(), self@.dom(), f);
    }

    proof fn lemma_view_insert(&self, before: &Self, t: Seq<char>, b: Seq<char>, v: BladeHealth)
        requires
            self.table@ == before.table@.insert(blade_key_view(t, b), v),
        ensures
            self@ == before@.insert((t, b), v@),
    {
        assert forall|k: (Seq<char>, Seq<char>)| #![auto]
            self@.contains_key(k) == before@.insert((t, b), v@).contains_key(k) && (
            self@.contains_key(k) ==> self@[k] == before@.insert((t, b), v@)[k]) by {
            lemma_blade_key_parts(k.0, k.1, t, b);
        }
        assert(self@ =~= before@.insert((t, b), v@));
    }

    proof fn lemma_wf_insert(&self, before: &Self, v: BladeHealth)
        requires
            before.wf(),
            self.table.wf(),
            self.table@ == before.table@.insert(blade_key_view(v.turbine_id@, v.blade_id@), v),
        ensures
            self.wf(),
    {
    }

    proof fn lemma_value_at(&self, t: Seq<char>, b: Seq<char>)
        requires
            self.wf(),
            self@.contains_key((t, b)),
        ensures
            self@[(t, b)].turbine_id == t,
            self@[(t, b)].blade_id == b,
    {
        let kv = blade_key_view(t, b);
        assert(self.table@.contains_key(kv));
        lemma_blade_key_parts(t, b, self.table@[kv].turbine_id@, self.table@[kv].blade_id@);
    }

    /// The summary of one blade, if it has one.
    pub fn get(&self, turbine_id: &str, blade_id: &str) -> (r: Option<BladeHealth>)
        requires
            self.wf(),
        ensures
            match r {
                Some(h) => self@.contains_key((turbine_id@, blade_id@)) && h@ == self@[(
                    turbine_id@,
                    blade_id@,
                )],
                None => !self@.contains_key((turbine_id@, blade_id@)),
            },
    {
        let key = BladeKey {
            turbine_id: String::from_str(turbine_id),
            blade_id: String::from_str(blade_id),
        };
        match self.table.get(&key) {
            Some(h) => Some(h.clone()),
            None => None,
        }
    }

    /// Notes a strain reading of one blade at `now`: the blade gets a fresh
    /// summary if it had none, and its last check becomes `now`.
    pub fn record_strain_check_at(&mut self, turbine_id: &str, blade_id: &str, now: i64)
        requires
            old(self).wf(),
        ensures
            final(self).wf(),
            final(self)@ == old(self)@.insert(
                (turbine_id@, blade_id@),
                if old(self)@.contains_key((turbine_id@, blade_id@)) {
                    BladeHealthView { last_check: now, ..old(self)@[(turbine_id@, blade_id@)] }
                } else {
                    fresh_view(turbine_id@, blade_id@, now)
                },
            ),
    {
        let ghost before = *self;
        let ghost t = turbine_id@;
        let ghost b = blade_id@;
        let key = BladeKey {
            turbine_id: String::from_str(turbine_id),
            blade_id: String::from_str(blade_id),
        };
        let updated = match self.table.remove(&key) {
            Some(h) => {
                proof {
                    before.lemma_value_at(t, b);
                }
                BladeHealth { last_check: now, ..h }
            },
            None => fresh_health(turbine_id, blade_id, now),
        };
        self.table.insert(key, updated);
        proof {
            assert(self.table@ =~= before.table@.insert(blade_key_view(t, b), updated));
            self.lemma_wf_insert(&before, updated);
            self.lemma_view_insert(&before, t, b, updated);
        }
    }

    /// Applies a measurement of damage features to its blade's summary
    /// (starting from a fresh summary if the blade had none); returns the
    /// new summary.
    pub fn apply_damage_features(&mut self, f: &DamageSummary) -> (r: BladeHealth)
        requires
            old(self).wf(),
        ensures
            final(self).wf(),
            r@ == apply_view(
                if old(self)@.contains_key((f.turbine_id@, f.blade_id@)) {
                    old(self)@[(f.turbine_id@, f.blade_id@)]
                } else {
                    fresh_view(f.turbine_id@, f.blade_id@, f.timestamp)
                },
                *f,
            ),
            final(self)@ == old(self)@.insert((f.turbine_id@, f.blade_id@), r@),
    {
        let ghost before = *self;
        let ghost t = f.turbine_id@;
        let ghost b = f.blade_id@;
        let key = BladeKey { turbine_id: f.turbine_id.clone(), blade_id: f.blade_id.clone() };
        let mut h = match self.table.remove(&key) {
            Some(h) => {
                proof {
                    before.lemma_value_at(t, b);
                }
                h
            },
            None => fresh_health(f.turbine_id.as_str(), f.blade_id.as_str(), f.timestamp),
        };
        let ghost start = h@;
        if f.health_score < h.health_score {
            h.health_score = f.health_score;
        }
        h.last_check = f.timestamp;
        if f.delamination_dominant {
            h.damage_type = String::from_str("delamination");
        } else if f.fiber_dominant {
            h.damage_type = String::from_str("fiber");
        } else if f.matrix_dominant {
            h.damage_type = String::from_str("matrix");
        }
        h.severity_level = (f.damage_severity / 25) as u8;
        let root = String::from_str("root");
        let mid = String::from_str("mid");
        let tip = String::from_str("tip");
        if f.section == root {
            h.root_health = Some(f.health_score);
        } else if f.section == mid {
            h.mid_health = Some(f.health_score);
        } else if f.section == tip {
            h.tip_health = Some(f.health_score);
        }
        proof {
            reveal_strlit("root");
            reveal_strlit("mid");
            reveal_strlit("tip");
            assert("root"@ != "mid"@ && "root"@ != "tip"@ && "mid"@ != "tip"@) by {
                assert("root"@[0] != "mid"@[0]);
                assert("root"@[0] != "tip"@[0]);
                assert("mid"@[0] != "tip"@[0]);
            }
            assert(h@ == apply_view(start, *f));
        }
        let r = h.clone();
        self.table.insert(key, h);
        proof {
            assert(self.table@ =~= before.table@.insert(blade_key_view(t, b), h));
            self.lemma_wf_insert(&before, h);
            self.lemma_view_insert(&before, t, b, h);
        }
        r
    }

    /// The summaries of all blades, one per blade.
    pub fn list(&self) -> (r: Vec<BladeHealth>)
        requires
            self.wf(),
        ensures
            lists_all(r@, self@),
    {
        let vals = self.table.values();
        let mut r: Vec<BladeHealth> = Vec::new();
        let mut i: usize = 0;
        while i < vals.len()
            invariant
                i <= vals.len(),
                r@ == vals@.take(i as int),
            decreases vals.len() - i,
        {
            r.push(vals[i].clone());
            i = i + 1;
            proof {
                assert(r@ =~= vals@.take(i as int));
            }
        }
        proof {
            assert(r@ =~= vals@);
            self.table.lemma_lists();
            self.table.lemma_dom_len();
            self.lemma_dom_len();
            let kl = self.table.key_list();
            let rs = r@;
            assert forall|i: int| 0 <= i < rs.len() implies kl[i] == blade_key_view(
                rs[i].turbine_id@,
                rs[i].blade_id@,
            ) && self.table@[kl[i]] == rs[i] by {
                assert(self.table@.contains_key(kl[i]));
                assert(self.table.value_list()[i] == rs[i]);
            }
            assert forall|i: int|
                0 <= i < rs.len() implies self@.contains_key((rs[i].turbine_id@, rs[i].blade_id@))
                && self@[(rs[i].turbine_id@, rs[i].blade_id@)] == #[trigger] rs[i]@ by {
                assert(kl[i] == blade_key_view(rs[i].turbine_id@, rs[i].blade_id@));
                assert(self.table@.contains_key(kl[i]));
            }
            assert forall|i: int, j: int| 0 <= i < j < rs.len() implies (
                rs[i].turbine_id@,
                rs[i].blade_id@,
            ) != (rs[j].turbine_id@, rs[j].blade_id@) by {
                assert(kl[i] != kl[j]);
                lemma_blade_key_parts(
                    rs[i].turbine_id@,
                    rs[i].blade_id@,
                    rs[j].turbine_id@,
                    rs[j].blade_id@,
                );
            }
        }
        r
    }

    /// Fills an empty cache with the default summaries of the three blades
    /// of turbines WT001 to WT100, checked at `now`.
    pub fn seed_defaults_at(&mut self, now: i64)
        requires
            old(self).wf(),
            old(self)@.dom().len() == 0,
        ensures
            final(self).wf(),
            seeded(final(self)@, now),
    {
        proof {
            self.lemma_dom_len();
            reveal_strlit("A");
            reveal_strlit("B");
            reveal_strlit("C");
            assert(seed_blade(0)[0] != seed_blade(1)[0] && seed_blade(0)[0] != seed_blade(2)[0]
                && seed_blade(1)[0] != seed_blade(2)[0]);
            assert(self@.dom() =~= Set::<(Seq<char>, Seq<char>)>::empty());
        }
        let mut idx: u64 = 0;
        while idx < 300
            invariant
                self.wf(),
                idx <= 300,
                self@.dom().finite(),
                self@.dom().len() == idx,
                seed_blade(0)[0] != seed_blade(1)[0] && seed_blade(0)[0] != seed_blade(2)[0]
                    && seed_blade(1)[0] != seed_blade(2)[0],
                forall|n: nat, j: nat|
                    1 <= n <= 100 && j < 3 && 3 * (n - 1) + j < idx ==> self@.contains_key(
                        (turbine_label(n), seed_blade(j)),
                    ) && self@[(turbine_label(n), seed_blade(j))] == #[trigger] seed_view(
                        n,
                        j,
                        now,
                    ),
                forall|k: (Seq<char>, Seq<char>)|
                    #[trigger] self@.contains_key(k) ==> exists|n: nat, j: nat|
                        1 <= n <= 100 && j < 3 && 3 * (n - 1) + j < idx && k == (
                            #[trigger] turbine_label(n),
                            #[trigger] seed_blade(j),
                        ),
            decreases 300 - idx,
        {
            let n: u64 = idx / 3 + 1;
            let j: u64 = idx % 3;
            let score: i32 = 85 + (n % 15) as i32;
            let blade = if j == 0 {
                String::from_str("A")
            } else if j == 1 {
                String::from_str("B")
            } else {
                String::from_str("C")
            };
            let tid = turbine_label_string(n);
            let h = BladeHealth {
                turbine_id: tid.clone(),
                blade_id: blade.clone(),
                health_score: score,
                damage_type: if score < 70 {
                    String::from_str("matrix")
                } else {
                    String::from_str("none")
                },
                severity_level: if score < 70 {
                    1
                } else {
                    0
                },
                last_check: now,
                root_health: Some(score),
                mid_health: Some(score + 2),
                tip_health: Some(score - 1),
            };
            let ghost t = tid@;
            let ghost b = blade@;
            let ghost before = *self;
            proof {
                assert(b == seed_blade(j as nat));
                assert(h@ == seed_view(n as nat, j as nat, now));
                assert(!before@.contains_key((t, b))) by {
                    if before@.contains_key((t, b)) {
                        let (n2, j2) = choose|n2: nat, j2: nat|
                            1 <= n2 <= 100 && j2 < 3 && 3 * (n2 - 1) + j2 < idx && (t, b) == (
                                #[trigger] turbine_label(n2),
                                #[trigger] seed_blade(j2),
                            );
                        lemma_turbine_label_injective(n as nat, n2);
                        assert(seed_blade(j2)[0] == seed_blade(j as nat)[0]);
                    }
                }
            }
            let key = BladeKey { turbine_id: tid, blade_id: blade };
            self.table.insert(key, h);
            proof {
                self.lemma_wf_insert(&before, h);
                self.lemma_view_insert(&before, t, b, h);
                assert(self@.dom() =~= before@.dom().insert((t, b)));
                assert forall|k: (Seq<char>, Seq<char>)|
                    #[trigger] self@.contains_key(k) implies exists|n2: nat, j2: nat|
                        1 <= n2 <= 100 && j2 < 3 && 3 * (n2 - 1) + j2 < idx + 1 && k == (
                            #[trigger] turbine_label(n2),
                            #[trigger] seed_blade(j2),
                        ) by {
                    if k == (t, b) {
                        assert(k == (turbine_label(n as nat), seed_blade(j as nat)));
                    } else {
                        assert(before@.contains_key(k));
                    }
                }
            }
            idx = idx + 1;
        }
    }

    /// All summaries; an empty cache is first filled with the default
    /// summaries, checked at `now`.
    pub fn all_at(&mut self, now: i64) -> (r: Vec<BladeHealth>)
        requires
            old(self).wf(),
        ensures
            final(self).wf(),
            old(self)@.dom().len() > 0 ==> final(self)@ == old(self)@,
            old(self)@.dom().len() == 0 ==> seeded(final(self)@, now),
            lists_all(r@, final(self)@),
    {
        if self.len() == 0 {
            self.seed_defaults_at(now);
        }
        self.list()
    }
}

/// A fresh summary for one blade, checked at `now`.
fn fresh_health(turbine_id: &str, blade_id: &str, now: i64) -> (r: BladeHealth)
    ensures
        r@ == fresh_view(turbine_id@, blade_id@, now),
{
    BladeHealth {
        turbine_id: String::from_str(turbine_id),
        blade_id: String::from_str(blade_id),
        health_score: 100,
        damage_type: String::from_str("none"),
        severity_level: 0,
        last_check: now,
        root_health: Some(100),
        mid_health: Some(100),
        tip_health: Some(100),
    }
}

} // verus!
