use wind_turbine_blade_monitor::models::BladeHealth;
use wind_turbine_blade_monitor::statistics::{rank_turbines, tally_damage};

fn blade(turbine: &str, blade: &str, score: i32, damage: &str) -> BladeHealth {
    BladeHealth {
        turbine_id: turbine.to_string(),
        blade_id: blade.to_string(),
        health_score: score,
        damage_type: damage.to_string(),
        severity_level: 0,
        last_check: 0,
        root_health: Some(score),
        mid_health: Some(score),
        tip_health: Some(score),
    }
}

#[test]
fn tally_counts_bands_and_labels() {
    let list = vec![
        blade("WT001", "A", 100, "none"),
        blade("WT001", "B", 80, "matrix"),
        blade("WT001", "C", 79, "fiber"),
        blade("WT002", "A", 60, "delamination"),
        blade("WT002", "B", 59, "delamination"),
        blade("WT002", "C", 101, "combined"),
        blade("WT003", "A", -5, "none"),
    ];
    let t = tally_damage(&list);
    assert_eq!(t.total_blades, 7);
    assert_eq!(t.healthy_count, 2);
    assert_eq!(t.warning_count, 2);
    assert_eq!(t.damaged_count, 3);
    assert_eq!(t.matrix_cracking_count, 1);
    assert_eq!(t.fiber_breakage_count, 1);
    assert_eq!(t.delamination_count, 2);
    assert_eq!(t.total_score, 100 + 80 + 79 + 60 + 59 + 101 - 5);
}

#[test]
fn tally_of_nothing_is_zero() {
    let t = tally_damage(&Vec::new());
    assert_eq!(t.total_blades, 0);
    assert_eq!(t.healthy_count + t.warning_count + t.damaged_count, 0);
    assert_eq!(t.total_score, 0);
}

#[test]
fn ranking_sums_blades_and_orders_by_score() {
    let list = vec![
        blade("WT001", "A", 90, "none"),
        blade("WT002", "A", 95, "none"),
        blade("WT001", "B", 90, "none"),
        blade("WT002", "B", 95, "none"),
        blade("WT003", "A", 70, "none"),
        blade("WT001", "C", 91, "none"),
        blade("WT002", "C", 96, "none"),
        blade("WT003", "B", 70, "none"),
        blade("WT003", "C", 71, "none"),
    ];
    let r = rank_turbines(&list);
    assert_eq!(r.len(), 3);
    assert_eq!(r[0].turbine_id, "WT002");
    assert_eq!(r[0].health_score, (95 + 95 + 96) / 3);
    assert_eq!(r[0].rank, 1);
    assert_eq!(r[1].turbine_id, "WT001");
    assert_eq!(r[1].health_score, (90 + 90 + 91) / 3);
    assert_eq!(r[1].rank, 2);
    assert_eq!(r[2].turbine_id, "WT003");
    assert_eq!(r[2].health_score, 70);
    assert_eq!(r[2].rank, 3);
}

#[test]
fn ranking_divides_by_three_even_for_fewer_blades() {
    let list = vec![blade("WT010", "A", 100, "none")];
    let r = rank_turbines(&list);
    assert_eq!(r.len(), 1);
    assert_eq!(r[0].health_score, 33);
    assert_eq!(r[0].rank, 1);
}

#[test]
fn ranking_rounds_negative_totals_toward_zero() {
    let list = vec![blade("WT004", "A", -4, "none")];
    let r = rank_turbines(&list);
    assert_eq!(r[0].health_score, -1);
}

#[test]
fn ranking_keeps_ties_in_first_seen_order() {
    let list = vec![
        blade("WT007", "A", 60, "none"),
        blade("WT005", "A", 60, "none"),
        blade("WT006", "A", 90, "none"),
    ];
    let r = rank_turbines(&list);
    let ids: Vec<&str> = r.iter().map(|x| x.turbine_id.as_str()).collect();
    assert_eq!(ids, vec!["WT006", "WT007", "WT005"]);
    let ranks: Vec<i32> = r.iter().map(|x| x.rank).collect();
    assert_eq!(ranks, vec![1, 2, 3]);
}

#[test]
fn ranking_of_nothing_is_empty() {
    assert!(rank_turbines(&Vec::new()).is_empty());
}
