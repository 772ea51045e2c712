//! Fleet-wide damage statistics and the turbine health ranking, computed
//! from the blade health summaries.

use vstd::prelude::*;
use crate::models::{BladeHealth, HealthRanking};

verus! {

/// The categories that the damage statistics count blades in.
pub enum TallyKind {
    Healthy,
    Warning,
    Damaged,
    Matrix,
    Fiber,
    Delamination,
}

/// Whether a blade counts in a category: scores 80..=100 are healthy,
/// 60..=79 a warning, everything else damaged; the damage labels are
/// counted by their exact text.
pub open spec fn counts_as(h: BladeHealth, k: TallyKind) -> bool {
    match k {
        TallyKind::Healthy => 80 <= h.health_score <= 100,
        TallyKind::Warning => 60 <= h.health_score <= 79,
        TallyKind::Damaged => !(60 <= h.health_score <= 100),
        TallyKind::Matrix => h.damage_type@ == "matrix"@,
        TallyKind::Fiber => h.damage_type@ == "fiber"@,
        TallyKind::Delamination => h.damage_type@ == "delamination"@,
    }
}

/// Number of blades of `s` in category `k`.
pub open spec fn tally_count(s: Seq<BladeHealth>, k: TallyKind) -> nat
    decreases s.len(),
{
    if s.len() == 0 {
        0
    } else {
        tally_count(s.drop_last(), k) + if counts_as(s.last(), k) {
            1nat
        } else {
            0nat
        }
    }
}

/// Sum of the health scores of `s`.
pub open spec fn score_sum(s: Seq<BladeHealth>) -> int
    decreases s.len(),
{
    if s.len() == 0 {
        0
    } else {
        score_sum(s.drop_last()) + s.last().health_score
    }
}

/// Counts behind the damage statistics: the number of blades, the number in
/// each category, and the sum of all health scores (the average score is
/// this sum over the number of blades).
pub struct DamageTally {
    pub total_blades: i32,
    pub healthy_count: i32,
    pub warning_count: i32,
    pub damaged_count: i32,
    pub matrix_cracking_count: i32,
    pub fiber_breakage_count: i32,
    pub delamination_count: i32,
    pub total_score: i64,
}

/// The tally that a list of blade summaries gives.
pub open spec fn tally_of(s: Seq<BladeHealth>) -> DamageTally {
    DamageTally {
        total_blades: s.len() as i32,
        healthy_count: tally_count(s, TallyKind::Healthy) as i32,
        warning_count: tally_count(s, TallyKind::Warning) as i32,
        damaged_count: tally_count(s, TallyKind::Damaged) as i32,
        matrix_cracking_count: tally_count(s, TallyKind::Matrix) as i32,
        fiber_breakage_count: tally_count(s, TallyKind::Fiber) as i32,
        delamination_count: tally_count(s, TallyKind::Delamination) as i32,
        total_score: score_sum(s) as i64,
    }
}

proof fn lemma_tally_count_bound(s: Seq<BladeHealth>, k: TallyKind)
    ensures
        tally_count(s, k) <= s.len(),
    decreases s.len(),
{
    if s.len() > 0 {
        lemma_tally_count_bound(s.drop_last(), k);
    }
}

proof fn lemma_score_sum_bound(s: Seq<BladeHealth>)
    ensures
        s.len() * i32::MIN <= score_sum(s) <= s.len() * i32::MAX,
    decreases s.len(),
{
    if s.len() > 0 {
        lemma_score_sum_bound(s.drop_last());
    }
}

proof fn lemma_healthy_warning_damaged(s: Seq<BladeHealth>)
    ensures
        tally_count(s, TallyKind::Healthy) + tally_count(s, TallyKind::Warning) + tally_count(
            s,
            TallyKind::Damaged,
        ) == s.len(),
    decreases s.len(),
{
    if s.len() > 0 {
        lemma_healthy_warning_damaged(s.drop_last());
    }
}

fn bump(c: i32) -> (r: i32)
    requires
        c < i32::MAX,
    ensures
        r == c + 1,
{
    c + 1
}

/// Counts the blades by health band and by damage label, and sums their
/// scores.
pub fn tally_damage(health_list: &Vec<BladeHealth>) -> (t: DamageTally)
    requires
        health_list.len() <= i32::MAX,
    ensures
        t == tally_of(health_list@),
        t.healthy_count + t.warning_count + t.damaged_count == t.total_blades,
{
    let matrix = String::from_str("matrix");
    let fiber = String::from_str("fiber");
    let delamination = String::from_str("delamination");
    let n = health_list.len();
    proof {
        reveal_strlit("matrix");
        reveal_strlit("fiber");
        reveal_strlit("delamination");
        assert("matrix"@ != "fiber"@ && "matrix"@ != "delamination"@ && "fiber"@
            != "delamination"@) by {
            assert("matrix"@[0] != "fiber"@[0]);
            assert("matrix"@[0] != "delamination"@[0]);
            assert("fiber"@[0] != "delamination"@[0]);
        }
    }
    let mut t = DamageTally {
        total_blades: n as i32,
        healthy_count: 0,
        warning_count: 0,
        damaged_count: 0,
        matrix_cracking_count: 0,
        fiber_breakage_count: 0,
        delamination_count: 0,
        total_score: 0,
    };
    let mut i: usize = 0;
    while i < n
        invariant
            n == health_list.len(),
            n <= i32::MAX,
            i <= n,
            matrix@ == "matrix"@,
            fiber@ == "fiber"@,
            delamination@ == "delamination"@,
            "matrix"@ != "fiber"@ && "matrix"@ != "delamination"@ && "fiber"@ != "delamination"@,
            t.total_blades == n as i32,
            t.healthy_count == tally_count(health_list@.take(i as int), TallyKind::Healthy),
            t.warning_count == tally_count(health_list@.take(i as int), TallyKind::Warning),
            t.damaged_count == tally_count(health_list@.take(i as int), TallyKind::Damaged),
            t.matrix_cracking_count == tally_count(health_list@.take(i as int), TallyKind::Matrix),
            t.fiber_breakage_count == tally_count(health_list@.take(i as int), TallyKind::Fiber),
            t.delamination_count == tally_count(
                health_list@.take(i as int),
                TallyKind::Delamination,
            ),
            t.total_score == score_sum(health_list@.take(i as int)),
        decreases n - i,
    {
        let ghost prefix = health_list@.take(i as int);
        let ghost next = health_list@.take(i + 1);
        proof {
            assert(next.drop_last() =~= prefix);
            lemma_tally_count_bound(prefix, TallyKind::Healthy);
            lemma_tally_count_bound(prefix, TallyKind::Warning);
            lemma_tally_count_bound(prefix, TallyKind::Damaged);
            lemma_tally_count_bound(prefix, TallyKind::Matrix);
            lemma_tally_count_bound(prefix, TallyKind::Fiber);
            lemma_tally_count_bound(prefix, TallyKind::Delamination);
            lemma_score_sum_bound(prefix);
            assert(i * i32::MAX <= i32::MAX * i32::MAX) by (nonlinear_arith)
                requires
                    i <= i32::MAX,
            ;
            assert(i * i32::MIN >= i32::MAX * i32::MIN) by (nonlinear_arith)
                requires
                    i <= i32::MAX,
            ;
        }
        let h = &health_list[i];
        t.total_score = t.total_score + h.health_score as i64;
        if h.health_score >= 80 && h.health_score <= 100 {
            t.healthy_count = bump(t.healthy_count);
        } else if h.health_score >= 60 && h.health_score <= 79 {
            t.warning_count = bump(t.warning_count);
        } else {
            t.damaged_count = bump(t.damaged_count);
        }
        if h.damage_type == matrix {
            t.matrix_cracking_count = bump(t.matrix_cracking_count);
        } else if h.damage_type == fiber {
            t.fiber_breakage_count = bump(t.fiber_breakage_count);
        } else if h.damage_type == delamination {
            t.delamination_count = bump(t.delamination_count);
        }
        i = i + 1;
    }
    proof {
        assert(health_list@.take(n as int) =~= health_list@);
        lemma_healthy_warning_damaged(health_list@);
    }
    t
}

/// Sum of the health scores of the blades of turbine `tid` in `s`.
pub open spec fn turbine_total(s: Seq<BladeHealth>, tid: Seq<char>) -> int
    decreases s.len(),
{
    if s.len() == 0 {
        0
    } else {
        turbine_total(s.drop_last(), tid) + if s.last().turbine_id@ == tid {
            s.last().health_score as int
        } else {
            0
        }
    }
}

/// Whether some blade of `s` belongs to turbine `tid`.
pub open spec fn has_turbine(s: Seq<BladeHealth>, tid: Seq<char>) -> bool {
    exists|j: int| 0 <= j < s.len() && #[trigger] s[j].turbine_id@ == tid
}

/// Integer division rounding toward zero, as `/` does on machine integers.
pub open spec fn trunc_div(a: int, b: int) -> int {
    if a >= 0 {
        a / b
    } else {
        -((-a) / b)
    }
}

/// Ranking score of a turbine: its blades' total over three, the number of
/// blades of a turbine.
pub open spec fn ranking_score(s: Seq<BladeHealth>, tid: Seq<char>) -> int {
    trunc_div(turbine_total(s, tid), 3)
}

/// The running per-turbine totals never leave the range of `i32`.
pub open spec fn totals_fit_i32(s: Seq<BladeHealth>) -> bool {
    forall|k: int, t: Seq<char>|
        0 <= k <= s.len() ==> i32::MIN <= #[trigger] turbine_total(s.take(k), t) <= i32::MAX
}

proof fn lemma_total_absent(s: Seq<BladeHealth>, tid: Seq<char>)
    requires
        !has_turbine(s, tid),
    ensures
        turbine_total(s, tid) == 0,
    decreases s.len(),
{
    if s.len() > 0 {
        assert(!has_turbine(s.drop_last(), tid)) by {
            if has_turbine(s.drop_last(), tid) {
                let j = choose|j: int|
                    0 <= j < s.drop_last().len() && #[trigger] s.drop_last()[j].turbine_id@ == tid;
                assert(s[j].turbine_id@ == tid);
            }
        }
        assert(s.last().turbine_id@ != tid) by {
            if s.last().turbine_id@ == tid {
                assert(s[s.len() - 1].turbine_id@ == tid);
            }
        }
        lemma_total_absent(s.drop_last(), tid);
    }
}

/// Whether some line of `r` is for turbine `tid`.
pub open spec fn ranking_lists(r: Seq<HealthRanking>, tid: Seq<char>) -> bool {
    exists|i: int| 0 <= i < r.len() && #[trigger] r[i].turbine_id@ == tid
}

/// Whether `tid` is one of `ids` and `score` is its total in `sums` over
/// three.
spec fn ids_give(ids: Seq<String>, sums: Seq<i32>, tid: Seq<char>, score: int) -> bool {
    exists|a: int|
        0 <= a < ids.len() && #[trigger] ids[a]@ == tid && score == trunc_div(sums[a] as int, 3)
}

/// Whether `tid` is one of `ids`.
spec fn ids_hold(ids: Seq<String>, tid: Seq<char>) -> bool {
    exists|a: int| 0 <= a < ids.len() && #[trigger] ids[a]@ == tid
}

/// Index of the entry of `ids` whose text is `tid`, if any.
fn find_id(ids: &Vec<String>, tid: &String) -> (r: Option<usize>)
    ensures
        match r {
            Some(p) => p < ids.len() && ids[p as int]@ == tid@,
            None => forall|a: int| 0 <= a < ids.len() ==> ids[a]@ != tid@,
        },
{
    let mut p: usize = 0;
    while p < ids.len()
        invariant
            p <= ids.len(),
            forall|a: int| 0 <= a < p ==> ids[a]@ != tid@,
        decreases ids.len() - p,
    {
        if ids[p] == *tid {
            return Some(p);
        }
        p = p + 1;
    }
    None
}

/// Inserts `entry` after every line whose score is at least its score;
/// returns the position it was inserted at.
fn insert_by_score(sorted: &mut Vec<HealthRanking>, entry: HealthRanking) -> (pos: usize)
    requires
        forall|i: int, j: int|
            0 <= i < j < old(sorted).len()
                ==> old(sorted)[i].health_score >= old(sorted)[j].health_score,
    ensures
        pos <= old(sorted).len(),
        final(sorted)@ == old(sorted)@.insert(pos as int, entry),
        forall|i: int, j: int|
            0 <= i < j < final(sorted).len()
                ==> final(sorted)[i].health_score >= final(sorted)[j].health_score,
{
    let score = entry.health_score;
    let mut pos: usize = 0;
    while pos < sorted.len() && sorted[pos].health_score >= score
        invariant
            pos <= sorted.len(),
            forall|q: int| 0 <= q < pos ==> sorted[q].health_score >= score,
        decreases sorted.len() - pos,
    {
        pos = pos + 1;
    }
    let ghost before = sorted@;
    proof {
        assert forall|q: int| pos <= q < before.len() implies before[q].health_score < score by {
            assert(before[pos as int].health_score < score);
        }
    }
    sorted.insert(pos, entry);
    proof {
        assert forall|i: int, j: int| 0 <= i < j < sorted.len() implies sorted[i].health_score
            >= sorted[j].health_score by {
            if j < pos {
                assert(sorted[i] == before[i] && sorted[j] == before[j]);
            } else if j == pos {
                assert(sorted[i] == before[i]);
            } else if i < pos {
                assert(sorted[i] == before[i] && sorted[j] == before[j - 1]);
            } else if i == pos {
                assert(sorted[j] == before[j - 1]);
            } else {
                assert(sorted[i] == before[i - 1] && sorted[j] == before[j - 1]);
            }
        }
    }
    pos
}

/// What inserting a line for the next turbine keeps true of the lines
/// ordered so far.
proof fn lemma_insert_keeps_links(
    before: Seq<HealthRanking>,
    after: Seq<HealthRanking>,
    pos: int,
    entry: HealthRanking,
    ids: Seq<String>,
    sums: Seq<i32>,
    a: int,
)
    requires
        0 <= a < ids.len() == sums.len(),
        0 <= pos <= before.len(),
        after == before.insert(pos, entry),
        entry.turbine_id@ == ids[a]@,
        entry.health_score == trunc_div(sums[a] as int, 3),
        forall|i: int, j: int|
            0 <= i < j < before.len() ==> before[i].turbine_id@ != before[j].turbine_id@,
        forall|i: int| 0 <= i < before.len() ==> before[i].turbine_id@ != ids[a]@,
        forall|i: int|
            0 <= i < before.len() ==> ids_give(
                ids.take(a),
                sums.take(a),
                #[trigger] before[i].turbine_id@,
                before[i].health_score as int,
            ),
        forall|b: int| 0 <= b < a ==> ranking_lists(before, #[trigger] ids[b]@),
    ensures
        forall|i: int, j: int|
            0 <= i < j < after.len() ==> after[i].turbine_id@ != after[j].turbine_id@,
        forall|i: int|
            0 <= i < after.len() ==> ids_give(
                ids.take(a + 1),
                sums.take(a + 1),
                #[trigger] after[i].turbine_id@,
                after[i].health_score as int,
            ),
        forall|b: int| 0 <= b < a + 1 ==> ranking_lists(after, #[trigger] ids[b]@),
{
    assert forall|i: int, j: int| 0 <= i < j < after.len() implies after[i].turbine_id@
        != after[j].turbine_id@ by {
        if j < pos {
            assert(after[i] == before[i] && after[j] == before[j]);
        } else if j == pos {
            assert(after[i] == before[i]);
        } else if i < pos {
            assert(after[i] == before[i] && after[j] == before[j - 1]);
        } else if i == pos {
            assert(after[j] == before[j - 1]);
        } else {
            assert(after[i] == before[i - 1] && after[j] == before[j - 1]);
        }
    }
    assert forall|i: int| 0 <= i < after.len() implies ids_give(
        ids.take(a + 1),
        sums.take(a + 1),
        #[trigger] after[i].turbine_id@,
        after[i].health_score as int,
    ) by {
        if i == pos {
            assert(ids.take(a + 1)[a]@ == after[i].turbine_id@);
        } else {
            let k = if i < pos {
                i
            } else {
                i - 1
            };
            assert(after[i] == before[k]);
            assert(ids_give(
                ids.take(a),
                sums.take(a),
                before[k].turbine_id@,
                before[k].health_score as int,
            ));
            let b = choose|b: int|
                0 <= b < a && #[trigger] ids.take(a)[b]@ == before[k].turbine_id@
                    && before[k].health_score == trunc_div(sums.take(a)[b] as int, 3);
            assert(ids.take(a + 1)[b]@ == after[i].turbine_id@);
        }
    }
    assert forall|b: int| 0 <= b < a + 1 implies ranking_lists(after, #[trigger] ids[b]@) by {
        if b == a {
            assert(after[pos].turbine_id@ == ids[b]@);
        } else {
            assert(ranking_lists(before, ids[b]@));
            let i = choose|i: int| 0 <= i < before.len() && #[trigger] before[i].turbine_id@
                == ids[b]@;
            if i < pos {
                assert(after[i] == before[i]);
            } else {
                assert(after[i + 1] == before[i]);
            }
        }
    }
}

/// Ranking lines for turbines `ids` with score totals `sums`: each total
/// over three, ordered by decreasing score (ties keep the order of `ids`),
/// ranked 1, 2, ... in that order.
fn order_rankings(ids: &Vec<String>, sums: &Vec<i32>) -> (r: Vec<HealthRanking>)
    requires
        ids.len() == sums.len(),
        ids.len() <= i32::MAX,
        forall|a: int, b: int| 0 <= a < b < ids.len() ==> ids[a]@ != ids[b]@,
    ensures
        r.len() == ids.len(),
        forall|i: int| 0 <= i < r.len() ==> #[trigger] r[i].rank == i + 1,
        forall|i: int, j: int|
            0 <= i < j < r.len() ==> r[i].health_score >= r[j].health_score,
        forall|i: int, j: int|
            0 <= i < j < r.len() ==> r[i].turbine_id@ != r[j].turbine_id@,
        forall|i: int|
            0 <= i < r.len() ==> ids_give(
                ids@,
                sums@,
                #[trigger] r[i].turbine_id@,
                r[i].health_score as int,
            ),
        forall|a: int| 0 <= a < ids.len() ==> ranking_lists(r@, #[trigger] ids[a]@),
{
    let mut sorted: Vec<HealthRanking> = Vec::new();
    let mut a: usize = 0;
    while a < ids.len()
        invariant
            ids.len() == sums.len(),
            ids.len() <= i32::MAX,
            forall|x: int, y: int| 0 <= x < y < ids.len() ==> ids[x]@ != ids[y]@,
            a <= ids.len(),
            sorted.len() == a,
            forall|i: int, j: int|
                0 <= i < j < sorted.len() ==> sorted[i].health_score >= sorted[j].health_score,
            forall|i: int, j: int|
                0 <= i < j < sorted.len() ==> sorted[i].turbine_id@ != sorted[j].turbine_id@,
            forall|i: int|
                0 <= i < sorted.len() ==> ids_give(
                    ids@.take(a as int),
                    sums@.take(a as int),
                    #[trigger] sorted[i].turbine_id@,
                    sorted[i].health_score as int,
                ),
            forall|b: int| 0 <= b < a ==> ranking_lists(sorted@, #[trigger] ids[b]@),
        decreases ids.len() - a,
    {
        let score = sums[a] / 3;
        let entry = HealthRanking { turbine_id: ids[a].clone(), health_score: score, rank: 0 };
        let ghost before = sorted@;
        proof {
            assert forall|i: int| 0 <= i < before.len() implies before[i].turbine_id@
                != ids[a as int]@ by {
                assert(ids_give(
                    ids@.take(a as int),
                    sums@.take(a as int),
                    before[i].turbine_id@,
                    before[i].health_score as int,
                ));
                let b = choose|b: int|
                    0 <= b < a && #[trigger] ids@.take(a as int)[b]@ == before[i].turbine_id@
                        && before[i].health_score == trunc_div(
                        sums@.take(a as int)[b] as int,
                        3,
                    );
                assert(ids[b]@ != ids[a as int]@);
            }
        }
        let pos = insert_by_score(&mut sorted, entry);
        proof {
            lemma_insert_keeps_links(before, sorted@, pos as int, entry, ids@, sums@, a as int);
        }
        a = a + 1;
    }
    proof {
        assert(ids@.take(ids.len() as int) =~= ids@);
        assert(sums@.take(sums.len() as int) =~= sums@);
    }
    let mut r: Vec<HealthRanking> = Vec::new();
    let mut k: usize = 0;
    while k < sorted.len()
        invariant
            k <= sorted.len(),
            sorted.len() <= i32::MAX,
            r.len() == k,
            forall|i: int|
                #![trigger r[i]]
                0 <= i < k ==> r[i].rank == i + 1 && r[i].turbine_id@ == sorted[i].turbine_id@
                    && r[i].health_score == sorted[i].health_score,
        decreases sorted.len() - k,
    {
        let line = HealthRanking {
            turbine_id: sorted[k].turbine_id.clone(),
            health_score: sorted[k].health_score,
            rank: (k + 1) as i32,
        };
        r.push(line);
        k = k + 1;
    }
    proof {
        assert forall|i: int, j: int| 0 <= i < j < r.len() implies r[i].health_score
            >= r[j].health_score by {
            assert(r[i].health_score == sorted[i].health_score);
            assert(r[j].health_score == sorted[j].health_score);
        }
        assert forall|i: int, j: int| 0 <= i < j < r.len() implies r[i].turbine_id@
            != r[j].turbine_id@ by {
            assert(r[i].turbine_id@ == sorted[i].turbine_id@);
            assert(r[j].turbine_id@ == sorted[j].turbine_id@);
        }
        assert forall|i: int| 0 <= i < r.len() implies ids_give(
            ids@,
            sums@,
            #[trigger] r[i].turbine_id@,
            r[i].health_score as int,
        ) by {
            assert(r[i].turbine_id@ == sorted[i].turbine_id@);
            assert(r[i].health_score == sorted[i].health_score);
            assert(ids_give(
                ids@.take(ids.len() as int),
                sums@.take(sums.len() as int),
                sorted[i].turbine_id@,
                sorted[i].health_score as int,
            ));
        }
        assert forall|a: int| 0 <= a < ids.len() implies ranking_lists(r@, #[trigger] ids[a]@) by {
            assert(ranking_lists(sorted@, ids[a]@));
            let i = choose|i: int| 0 <= i < sorted.len() && #[trigger] sorted[i].turbine_id@
                == ids[a]@;
            assert(r[i].turbine_id@ == sorted[i].turbine_id@);
        }
        assert forall|i: int| 0 <= i < r.len() implies #[trigger] r[i].rank == i + 1 by {
        }
    }
    r
}

/// Health ranking of the turbines: one line per turbine that has a blade in
/// `health_list`, with the total of its blades' scores over three (rounded
/// toward zero), in order of decreasing score, ranked 1, 2, ... in that
/// order.
pub fn rank_turbines(health_list: &Vec<BladeHealth>) -> (r: Vec<HealthRanking>)
    requires
        health_list.len() <= i32::MAX,
        totals_fit_i32(health_list@),
    ensures
        forall|i: int| 0 <= i < r.len() ==> #[trigger] r[i].rank == i + 1,
        forall|i: int, j: int|
            0 <= i < j < r.len() ==> r[i].health_score >= r[j].health_score,
        forall|i: int, j: int|
            0 <= i < j < r.len() ==> r[i].turbine_id@ != r[j].turbine_id@,
        forall|i: int|
            0 <= i < r.len() ==> has_turbine(health_list@, #[trigger] r[i].turbine_id@)
                && r[i].health_score == ranking_score(health_list@, r[i].turbine_id@),
        forall|j: int|
            0 <= j < health_list.len() ==> ranking_lists(r@, #[trigger] health_list[j].turbine_id@),
{
    let n = health_list.len();
    let mut ids: Vec<String> = Vec::new();
    let mut sums: Vec<i32> = Vec::new();
    let mut i: usize = 0;
    while i < n
        invariant
            n == health_list.len(),
            i <= n,
            totals_fit_i32(health_list@),
            ids.len() == sums.len(),
            ids.len() <= i,
            forall|a: int, b: int| 0 <= a < b < ids.len() ==> ids[a]@ != ids[b]@,
            forall|a: int|
                0 <= a < ids.len() ==> #[trigger] sums[a] == turbine_total(
                    health_list@.take(i as int),
                    ids[a]@,
                ),
            forall|a: int|
                0 <= a < ids.len() ==> has_turbine(health_list@.take(i as int), #[trigger] ids[a]@),
            forall|j: int| 0 <= j < i ==> ids_hold(ids@, #[trigger] health_list@[j].turbine_id@),
        decreases n - i,
    {
        let ghost prefix = health_list@.take(i as int);
        let ghost next = health_list@.take(i + 1);
        let h = &health_list[i];
        proof {
            assert(next.drop_last() =~= prefix);
            assert(next.last() == health_list@[i as int]);
        }
        let ghost old_ids = ids@;
        let ghost old_sums = sums@;
        let found = find_id(&ids, &h.turbine_id);
        match found {
            Some(p) => {
                proof {
                    assert(turbine_total(next, ids[p as int]@) == sums[p as int] + h.health_score);
                    assert(i32::MIN <= turbine_total(health_list@.take(i + 1), ids[p as int]@)
                        <= i32::MAX);
                }
                let v = sums[p] + h.health_score;
                sums[p] = v;
            },
            None => {
                proof {
                    assert(!has_turbine(prefix, h.turbine_id@)) by {
                        if has_turbine(prefix, h.turbine_id@) {
                            let j = choose|j: int|
                                0 <= j < prefix.len() && #[trigger] prefix[j].turbine_id@
                                    == h.turbine_id@;
                            assert(prefix[j] == health_list@[j]);
                            assert(ids_hold(ids@, health_list@[j].turbine_id@));
                            let a = choose|a: int|
                                0 <= a < ids.len() && #[trigger] ids@[a]@
                                    == health_list@[j].turbine_id@;
                            assert(ids[a]@ == h.turbine_id@);
                        }
                    }
                    lemma_total_absent(prefix, h.turbine_id@);
                    assert(turbine_total(next, h.turbine_id@) == h.health_score);
                }
                ids.push(h.turbine_id.clone());
                sums.push(h.health_score);
            },
        }
        proof {
            assert forall|a: int| 0 <= a < ids.len() implies #[trigger] sums[a] == turbine_total(
                next,
                ids[a]@,
            ) by {
                if a < old_ids.len() {
                    if ids[a]@ != h.turbine_id@ {
                        assert(sums[a] == old_sums[a]);
                    }
                }
            }
            assert forall|a: int| 0 <= a < ids.len() implies has_turbine(
                next,
                #[trigger] ids[a]@,
            ) by {
                if ids[a]@ == h.turbine_id@ {
                    assert(next[i as int].turbine_id@ == h.turbine_id@);
                } else {
                    assert(a < old_ids.len());
                    assert(old_ids[a] == ids[a]);
                    assert(has_turbine(prefix, old_ids[a]@));
                    let j = choose|j: int|
                        0 <= j < prefix.len() && #[trigger] prefix[j].turbine_id@ == ids[a]@;
                    assert(next[j].turbine_id@ == ids[a]@);
                }
            }
            assert forall|j: int| 0 <= j < i + 1 implies ids_hold(
                ids@,
                #[trigger] health_list@[j].turbine_id@,
            ) by {
                if j == i {
                    match found {
                        Some(p) => {
                            assert(ids@[p as int]@ == health_list@[j].turbine_id@);
                        },
                        None => {
                            assert(ids@[ids.len() - 1]@ == health_list@[j].turbine_id@);
                        },
                    }
                } else {
                    assert(ids_hold(old_ids, health_list@[j].turbine_id@));
                    let a = choose|a: int|
                        0 <= a < old_ids.len() && #[trigger] old_ids[a]@
                            == health_list@[j].turbine_id@;
                    assert(ids@[a] == old_ids[a]);
                }
            }
        }
        i = i + 1;
    }
    proof {
        assert(health_list@.take(n as int) =~= health_list@);
    }
    let r = order_rankings(&ids, &sums);
    proof {
        assert forall|j: int| 0 <= j < health_list.len() implies ranking_lists(
            r@,
            #[trigger] health_list[j].turbine_id@,
        ) by {
            assert(ids_hold(ids@, health_list@[j].turbine_id@));
            let a = choose|a: int|
                0 <= a < ids.len() && #[trigger] ids@[a]@ == health_list@[j].turbine_id@;
            assert(ranking_lists(r@, ids[a]@));
        }
        assert forall|i: int|
            0 <= i < r.len() implies has_turbine(health_list@, #[trigger] r[i].turbine_id@)
                && r[i].health_score == ranking_score(health_list@, r[i].turbine_id@) by {
            assert(ids_give(ids@, sums@, r[i].turbine_id@, r[i].health_score as int));
            let a = choose|a: int|
                0 <= a < ids.len() && #[trigger] ids@[a]@ == r[i].turbine_id@ && r[i].health_score
                    == trunc_div(sums@[a] as int, 3);
            assert(has_turbine(health_list@.take(n as int), ids[a]@));
        }
    }
    r
}

} // verus!
