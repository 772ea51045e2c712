//! Properties that hold across the operations of the library.

use vstd::prelude::*;
use crate::cooldown::{raise_decision, in_cooldown, cooldown_key_view, cooling_only};
use crate::blade_cache::{BladeHealthView, DamageSummary, apply_view, seeded, seed_blade, seed_view};
use crate::ids::turbine_label;
use crate::statistics::{TallyKind, tally_count};
use crate::ids::signed_decimal;
use crate::queries::{mes_status_query_text, acknowledge_query_text, alarm_columns, column_list, rewrite_statement};
use crate::history::bounded_push;
use crate::signal::severity_level_of;
use crate::models::{AlarmType, AlarmLevel, BladeHealth};

verus! {

/// Once an alarm has been raised for a key at time `t`, a check of that key
/// raises no alarm while less than the cooldown has passed since `t`, and
/// raises one again (when the value still exceeds its threshold) once the
/// cooldown has passed.
pub proof fn law_cooldown_suppresses_repeats(
    m: Map<Seq<char>, i64>,
    key: Seq<char>,
    t: i64,
    now: i64,
    minutes: i64,
)
    ensures
        !raise_decision(m.insert(key, t), key, true, now as int, minutes as int) <==> now - t
            < minutes * 60_000_000_000,
{
}

/// Raising an alarm for one key leaves the decisions for every other key
/// as they were.
pub proof fn law_cooldowns_are_per_key(
    m: Map<Seq<char>, i64>,
    key: Seq<char>,
    other: Seq<char>,
    t: i64,
    exceeded: bool,
    now: i64,
    minutes: i64,
)
    requires
        other != key,
    ensures
        raise_decision(m.insert(key, t), other, exceeded, now as int, minutes as int)
            == raise_decision(m, other, exceeded, now as int, minutes as int),
{
}

/// Forgetting the cooldowns that are older than a retention period changes
/// no cooldown decision made at the same time with a window no longer than
/// that period.
pub proof fn law_cleanup_keeps_decisions(
    m: Map<Seq<char>, i64>,
    key: Seq<char>,
    now: i64,
    minutes: i64,
    retention_minutes: i64,
)
    requires
        minutes <= retention_minutes,
    ensures
        in_cooldown(
            cooling_only(m, now as int, retention_minutes as int),
            key,
            now as int,
            minutes as int,
        ) == in_cooldown(m, key, now as int, minutes as int),
{
    assert(minutes * 60_000_000_000 <= retention_minutes * 60_000_000_000) by (nonlinear_arith)
        requires
            minutes <= retention_minutes,
    ;
}

/// Delamination alarms and frequency alarms never share a cooldown key, so
/// one kind of alarm never silences the other.
pub proof fn law_alarm_kinds_have_separate_cooldowns(
    t1: Seq<char>,
    b1: Seq<char>,
    s1: Seq<char>,
    t2: Seq<char>,
    b2: Seq<char>,
    s2: Seq<char>,
)
    ensures
        cooldown_key_view(AlarmType::DelaminationRate, t1, b1, s1) != cooldown_key_view(
            AlarmType::FrequencyOffset,
            t2,
            b2,
            s2,
        ),
{
    reveal_strlit("delam_");
    reveal_strlit("freq_");
    let a = cooldown_key_view(AlarmType::DelaminationRate, t1, b1, s1);
    let b = cooldown_key_view(AlarmType::FrequencyOffset, t2, b2, s2);
    assert(a[0] == 'd');
    assert(b[0] == 'f');
}

/// A blade's health score never rises through damage features: after a
/// measurement it is at most the score before and at most the measured
/// score.
pub proof fn law_health_never_rises(before: BladeHealthView, f: DamageSummary)
    ensures
        apply_view(before, f).health_score <= before.health_score,
        apply_view(before, f).health_score <= f.health_score,
        apply_view(before, f).turbine_id == before.turbine_id,
        apply_view(before, f).blade_id == before.blade_id,
{
}

/// A history kept with a capacity of at least one never holds more than
/// that capacity, however many measurements are pushed.
pub proof fn law_history_stays_bounded<T>(s: Seq<T>, xs: Seq<T>, cap: nat)
    requires
        1 <= cap,
        s.len() <= cap,
    ensures
        push_all(s, xs, cap).len() <= cap,
    decreases xs.len(),
{
    if xs.len() > 0 {
        crate::history::lemma_bounded_push_keeps_bound(s, xs[0], cap);
        law_history_stays_bounded(bounded_push(s, xs[0], cap), xs.drop_first(), cap);
    }
}

/// The history after pushing `xs` one by one.
pub open spec fn push_all<T>(s: Seq<T>, xs: Seq<T>, cap: nat) -> Seq<T>
    decreases xs.len(),
{
    if xs.len() == 0 {
        s
    } else {
        push_all(bounded_push(s, xs[0], cap), xs.drop_first(), cap)
    }
}

/// A higher severity score never gives a lower severity level.
pub proof fn law_severity_is_monotone(a: u8, b: u8)
    requires
        a <= b,
    ensures
        severity_level_of(a) <= severity_level_of(b),
{
}

/// A measurement of one blade section sets that section's score to the
/// measured score and leaves the scores of the other sections as they were.
pub proof fn law_measurement_touches_only_its_section(before: BladeHealthView, f: DamageSummary)
    ensures
        f.section@ == "root"@ ==> apply_view(before, f).root_health == Some(f.health_score),
        f.section@ == "mid"@ ==> apply_view(before, f).mid_health == Some(f.health_score),
        f.section@ == "tip"@ ==> apply_view(before, f).tip_health == Some(f.health_score),
        f.section@ != "root"@ ==> apply_view(before, f).root_health == before.root_health,
        f.section@ != "mid"@ ==> apply_view(before, f).mid_health == before.mid_health,
        f.section@ != "tip"@ ==> apply_view(before, f).tip_health == before.tip_health,
        apply_view(before, f).last_check == f.timestamp,
{
}

/// Every default blade of turbine number `n` (1 to 100) has health score
/// 85 + n % 15, so between 85 and 99, section scores of that score, two
/// more and one less at the root, middle and tip, no damage, severity 0,
/// and the seeding time as its last check.
pub proof fn law_seeded_defaults(
    m: Map<(Seq<char>, Seq<char>), BladeHealthView>,
    now: i64,
    n: nat,
    j: nat,
)
    requires
        seeded(m, now),
        1 <= n <= 100,
        j < 3,
    ensures
        m.contains_key((turbine_label(n), seed_blade(j))),
        m[(turbine_label(n), seed_blade(j))].health_score == 85 + n % 15,
        85 <= m[(turbine_label(n), seed_blade(j))].health_score <= 99,
        m[(turbine_label(n), seed_blade(j))].root_health == Some((85 + n % 15) as i32),
        m[(turbine_label(n), seed_blade(j))].mid_health == Some((87 + n % 15) as i32),
        m[(turbine_label(n), seed_blade(j))].tip_health == Some((84 + n % 15) as i32),
        m[(turbine_label(n), seed_blade(j))].damage_type == "none"@,
        m[(turbine_label(n), seed_blade(j))].severity_level == 0,
        m[(turbine_label(n), seed_blade(j))].last_check == now,
        m[(turbine_label(n), seed_blade(j))].turbine_id == turbine_label(n),
        m[(turbine_label(n), seed_blade(j))].blade_id == seed_blade(j),
{
    assert(m[(turbine_label(n), seed_blade(j))] == seed_view(n, j, now));
}

/// A delamination-rate alarm is raised at level 1, stored as 一级, and a
/// frequency-offset alarm at level 2, stored as 二级.
pub proof fn law_alarm_levels(t: AlarmType)
    ensures
        t == AlarmType::DelaminationRate ==> t.level_view() == AlarmLevel::Level1,
        t == AlarmType::FrequencyOffset ==> t.level_view() == AlarmLevel::Level2,
        t.level_view() == AlarmLevel::Level1 ==> t.level_view().label_view() == "一级"@,
        t.level_view() == AlarmLevel::Level2 ==> t.level_view().label_view() == "二级"@,
{
}

/// Counting is additive: the count of a category over two lists put end to
/// end is the sum of the two counts.
pub proof fn law_tally_adds_up(s1: Seq<BladeHealth>, s2: Seq<BladeHealth>, k: TallyKind)
    ensures
        tally_count(s1 + s2, k) == tally_count(s1, k) + tally_count(s2, k),
    decreases s2.len(),
{
    if s2.len() > 0 {
        law_tally_adds_up(s1, s2.drop_last(), k);
        assert((s1 + s2).drop_last() =~= s1 + s2.drop_last());
    } else {
        assert(s1 + s2 =~= s1);
    }
}

/// One blade counts as healthy exactly when its score is 80 to 100, as a
/// warning when it is 60 to 79, as damaged otherwise, whatever its damage
/// label; it counts under a damage label exactly when its label is that
/// text.
pub proof fn law_counts_of_one_blade(h: BladeHealth)
    ensures
        tally_count(seq![h], TallyKind::Healthy) == if 80 <= h.health_score <= 100 { 1nat } else { 0nat },
        tally_count(seq![h], TallyKind::Warning) == if 60 <= h.health_score <= 79 { 1nat } else { 0nat },
        tally_count(seq![h], TallyKind::Damaged) == if h.health_score < 60 || h.health_score > 100 {
            1nat
        } else {
            0nat
        },
        tally_count(seq![h], TallyKind::Matrix) == if h.damage_type@ == "matrix"@ { 1nat } else { 0nat },
        tally_count(seq![h], TallyKind::Fiber) == if h.damage_type@ == "fiber"@ { 1nat } else { 0nat },
        tally_count(seq![h], TallyKind::Delamination) == if h.damage_type@ == "delamination"@ {
            1nat
        } else {
            0nat
        },
{
    reveal_with_fuel(tally_count, 2);
    assert(seq![h].drop_last() =~= Seq::<BladeHealth>::empty());
}

/// The health bands depend on the scores alone: two lists with the same
/// scores in the same order, whatever their labels, have the same healthy,
/// warning and damaged counts.
pub proof fn law_bands_follow_scores(s1: Seq<BladeHealth>, s2: Seq<BladeHealth>)
    requires
        s1.len() == s2.len(),
        forall|i: int| 0 <= i < s1.len() ==> #[trigger] s1[i].health_score == s2[i].health_score,
    ensures
        tally_count(s1, TallyKind::Healthy) == tally_count(s2, TallyKind::Healthy),
        tally_count(s1, TallyKind::Warning) == tally_count(s2, TallyKind::Warning),
        tally_count(s1, TallyKind::Damaged) == tally_count(s2, TallyKind::Damaged),
    decreases s1.len(),
{
    if s1.len() > 0 {
        let (a, b) = (s1.drop_last(), s2.drop_last());
        assert forall|i: int| 0 <= i < a.len() implies #[trigger] a[i].health_score == b[i].health_score by {
            assert(a[i] == s1[i] && b[i] == s2[i]);
        }
        law_bands_follow_scores(a, b);
        law_counts_of_one_blade(s1.last());
        law_counts_of_one_blade(s2.last());
        assert(s1.last().health_score == s2.last().health_score);
    }
}

/// The acknowledge statement copies every column of the alarm into the
/// same column and sets only `acknowledged` to 1: its SELECT list is its
/// INSERT column list with `acknowledged` replaced by `1`.
pub proof fn law_acknowledge_copies_the_alarm(alarm_id: Seq<char>)
    ensures
        acknowledge_query_text(alarm_id) == rewrite_statement(alarm_columns().update(8, "1"@), alarm_id),
        alarm_columns()[8] == "acknowledged"@,
{
    reveal_strlit("INSERT INTO \"daily_agg\".\"alarms\" \n               (time, turbine_id, blade_id, alarm_level, alarm_type, \n                message, threshold, actual_value, acknowledged, mes_pushed, alarm_id)\n               SELECT time, turbine_id, blade_id, alarm_level, alarm_type,\n                      message, threshold, actual_value, 1, mes_pushed, alarm_id\n               FROM \"daily_agg\".\"alarms\" WHERE alarm_id = '");
    reveal_strlit("'");
    reveal_strlit("INSERT INTO \"daily_agg\".\"alarms\" \n               (");
    reveal_strlit(")\n               SELECT ");
    reveal_strlit("\n               FROM \"daily_agg\".\"alarms\" WHERE alarm_id = '");
    reveal_strlit(" \n                ");
    reveal_strlit("\n                      ");
    reveal_strlit(", ");
    reveal_strlit(",");
    reveal_strlit("1");
    reveal_strlit("time");
    reveal_strlit("turbine_id");
    reveal_strlit("blade_id");
    reveal_strlit("alarm_level");
    reveal_strlit("alarm_type");
    reveal_strlit("message");
    reveal_strlit("threshold");
    reveal_strlit("actual_value");
    reveal_strlit("acknowledged");
    reveal_strlit("mes_pushed");
    reveal_strlit("alarm_id");
    let c = alarm_columns();
    let v = c.update(8, "1"@);
    assert(v[0] == c[0] && v[1] == c[1] && v[2] == c[2] && v[3] == c[3] && v[4] == c[4]);
    assert(v[5] == c[5] && v[6] == c[6] && v[7] == c[7] && v[9] == c[9] && v[10] == c[10]);
    assert(acknowledge_query_text(alarm_id) =~= rewrite_statement(v, alarm_id));
}

/// The MES-status statement copies every column of the alarm into the
/// same column and sets only `mes_pushed`: its SELECT list is its INSERT
/// column list with `mes_pushed` replaced by the new flag.
pub proof fn law_mes_status_copies_the_alarm(alarm_id: Seq<char>, mes_pushed: i32)
    ensures
        mes_status_query_text(alarm_id, mes_pushed) == rewrite_statement(
            alarm_columns().update(9, signed_decimal(mes_pushed as int)),
            alarm_id,
        ),
        alarm_columns()[9] == "mes_pushed"@,
{
    reveal_strlit("INSERT INTO \"daily_agg\".\"alarms\" \n               (time, turbine_id, blade_id, alarm_level, alarm_type, \n                message, threshold, actual_value, acknowledged, mes_pushed, alarm_id)\n               SELECT time, turbine_id, blade_id, alarm_level, alarm_type,\n                      message, threshold, actual_value, acknowledged, ");
    reveal_strlit(", alarm_id\n               FROM \"daily_agg\".\"alarms\" WHERE alarm_id = '");
    reveal_strlit("'");
    reveal_strlit("INSERT INTO \"daily_agg\".\"alarms\" \n               (");
    reveal_strlit(")\n               SELECT ");
    reveal_strlit("\n               FROM \"daily_agg\".\"alarms\" WHERE alarm_id = '");
    reveal_strlit(" \n                ");
    reveal_strlit("\n                      ");
    reveal_strlit(", ");
    reveal_strlit(",");
    reveal_strlit("time");
    reveal_strlit("turbine_id");
    reveal_strlit("blade_id");
    reveal_strlit("alarm_level");
    reveal_strlit("alarm_type");
    reveal_strlit("message");
    reveal_strlit("threshold");
    reveal_strlit("actual_value");
    reveal_strlit("acknowledged");
    reveal_strlit("mes_pushed");
    reveal_strlit("alarm_id");
    let c = alarm_columns();
    let v = c.update(9, signed_decimal(mes_pushed as int));
    assert(v[0] == c[0] && v[1] == c[1] && v[2] == c[2] && v[3] == c[3] && v[4] == c[4]);
    assert(v[5] == c[5] && v[6] == c[6] && v[7] == c[7] && v[8] == c[8] && v[10] == c[10]);
    assert(mes_status_query_text(alarm_id, mes_pushed) =~= rewrite_statement(v, alarm_id));
}

} // verus!
