use wind_turbine_blade_monitor::blade_cache::{BladeHealthCache, DamageSummary};

fn summary(section: &str, health: i32, severity: i32, flags: (bool, bool, bool)) -> DamageSummary {
    DamageSummary {
        turbine_id: "WT001".to_string(),
        blade_id: "A".to_string(),
        section: section.to_string(),
        health_score: health,
        damage_severity: severity,
        timestamp: 1_000,
        delamination_dominant: flags.0,
        fiber_dominant: flags.1,
        matrix_dominant: flags.2,
    }
}

#[test]
fn strain_check_creates_a_fresh_summary() {
    let mut c = BladeHealthCache::new();
    c.record_strain_check_at("WT001", "A", 77);
    let h = c.get("WT001", "A").unwrap();
    assert_eq!(h.health_score, 100);
    assert_eq!(h.damage_type, "none");
    assert_eq!(h.severity_level, 0);
    assert_eq!(h.last_check, 77);
    assert_eq!(h.root_health, Some(100));
    assert_eq!(h.mid_health, Some(100));
    assert_eq!(h.tip_health, Some(100));
    assert!(c.get("WT001", "B").is_none());
}

#[test]
fn damage_features_lower_health_and_set_labels() {
    let mut c = BladeHealthCache::new();
    let h = c.apply_damage_features(&summary("mid", 60, 50, (false, true, true)));
    assert_eq!(h.health_score, 60);
    assert_eq!(h.damage_type, "fiber");
    assert_eq!(h.severity_level, 2);
    assert_eq!(h.mid_health, Some(60));
    assert_eq!(h.root_health, Some(100));
    assert_eq!(h.last_check, 1_000);
    let h = c.apply_damage_features(&summary("root", 90, 24, (false, false, false)));
    assert_eq!(h.health_score, 60);
    assert_eq!(h.damage_type, "fiber");
    assert_eq!(h.severity_level, 0);
    assert_eq!(h.root_health, Some(90));
    let h = c.apply_damage_features(&summary("tip", 40, 100, (true, true, false)));
    assert_eq!(h.health_score, 40);
    assert_eq!(h.damage_type, "delamination");
    assert_eq!(h.severity_level, 4);
    assert_eq!(h.tip_health, Some(40));
    let stored = c.get("WT001", "A").unwrap();
    assert_eq!(stored.health_score, 40);
    assert_eq!(c.len(), 1);
}

#[test]
fn unknown_section_updates_no_section_score() {
    let mut c = BladeHealthCache::new();
    let h = c.apply_damage_features(&summary("hub", 70, -30, (false, false, true)));
    assert_eq!(h.root_health, Some(100));
    assert_eq!(h.mid_health, Some(100));
    assert_eq!(h.tip_health, Some(100));
    assert_eq!(h.damage_type, "matrix");
    assert_eq!(h.severity_level, 255);
}

#[test]
fn empty_cache_is_seeded_with_three_hundred_blades() {
    let mut c = BladeHealthCache::new();
    let all = c.all_at(5);
    assert_eq!(all.len(), 300);
    assert_eq!(c.len(), 300);
    let first = c.get("WT001", "A").unwrap();
    assert_eq!(first.health_score, 86);
    assert_eq!(first.damage_type, "none");
    assert_eq!(first.mid_health, Some(88));
    assert_eq!(first.tip_health, Some(85));
    assert_eq!(first.last_check, 5);
    let last = c.get("WT100", "C").unwrap();
    assert_eq!(last.health_score, 85 + 100 % 15);
    assert!(c.get("WT101", "A").is_none());
    assert!(c.get("WT000", "A").is_none());
}

#[test]
fn filled_cache_is_listed_as_is() {
    let mut c = BladeHealthCache::new();
    c.record_strain_check_at("WT042", "B", 9);
    let all = c.all_at(5);
    assert_eq!(all.len(), 1);
    assert_eq!(all[0].turbine_id, "WT042");
    assert_eq!(all[0].last_check, 9);
}
