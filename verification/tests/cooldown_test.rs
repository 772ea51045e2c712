use wind_turbine_blade_monitor::cooldown::{
    cooldown_key, next_check, should_raise_at, CooldownTracker, ENGINE_COOLDOWN_MINUTES,
    ENGINE_COOLDOWN_RETENTION_MINUTES,
};
use wind_turbine_blade_monitor::models::AlarmType;

const MINUTE: i64 = 60_000_000_000;

#[test]
fn keys_carry_the_alarm_kind_and_blade_section() {
    assert_eq!(
        cooldown_key(AlarmType::DelaminationRate, "WT001", "A", "mid"),
        "delam_WT001_A_mid"
    );
    assert_eq!(
        cooldown_key(AlarmType::FrequencyOffset, "WT001", "A", "mid"),
        "freq_WT001_A_mid"
    );
}

#[test]
fn an_alarm_silences_its_key_for_thirty_minutes() {
    let mut t = CooldownTracker::new();
    let key = cooldown_key(AlarmType::DelaminationRate, "WT001", "A", "mid");
    let start = 1_700_000_000_000_000_000;
    assert!(should_raise_at(&t, &key, true, start, ENGINE_COOLDOWN_MINUTES));
    t.set_cooldown_at(key.clone(), start);
    assert!(!should_raise_at(&t, &key, true, start, ENGINE_COOLDOWN_MINUTES));
    assert!(!should_raise_at(&t, &key, true, start + 30 * MINUTE - 1, ENGINE_COOLDOWN_MINUTES));
    assert!(should_raise_at(&t, &key, true, start + 30 * MINUTE, ENGINE_COOLDOWN_MINUTES));
    assert!(!should_raise_at(&t, &key, false, start + 31 * MINUTE, ENGINE_COOLDOWN_MINUTES));
}

#[test]
fn other_keys_are_not_silenced() {
    let mut t = CooldownTracker::new();
    let delam = cooldown_key(AlarmType::DelaminationRate, "WT001", "A", "mid");
    let freq = cooldown_key(AlarmType::FrequencyOffset, "WT001", "A", "mid");
    t.set_cooldown_at(delam.clone(), 0);
    assert!(t.is_in_cooldown_at(&delam, 1, 30));
    assert!(!t.is_in_cooldown_at(&freq, 1, 30));
    assert!(should_raise_at(&t, &freq, true, 1, 30));
}

#[test]
fn cleanup_forgets_entries_older_than_an_hour() {
    let mut t = CooldownTracker::new();
    let old_key = "delam_WT001_A_mid".to_string();
    let new_key = "delam_WT002_B_tip".to_string();
    t.set_cooldown_at(old_key.clone(), 0);
    t.set_cooldown_at(new_key.clone(), 50 * MINUTE);
    t.cleanup_at(60 * MINUTE, ENGINE_COOLDOWN_RETENTION_MINUTES);
    assert!(!t.is_in_cooldown_at(&old_key, 60 * MINUTE, 24 * 60));
    assert!(t.is_in_cooldown_at(&new_key, 60 * MINUTE, 30));
}

#[test]
fn a_new_alarm_restarts_the_cooldown() {
    let mut t = CooldownTracker::new();
    let key = "freq_WT003_C_root".to_string();
    t.set_cooldown_at(key.clone(), 0);
    t.set_cooldown_at(key.clone(), 40 * MINUTE);
    assert!(t.is_in_cooldown_at(&key, 60 * MINUTE, 30));
}

#[test]
fn a_failed_push_starts_no_cooldown() {
    let mut t = CooldownTracker::new();
    let key = "delam_WT009_A_tip".to_string();
    t.record_push_outcome(key.clone(), 5 * MINUTE, false);
    assert!(!t.is_in_cooldown_at(&key, 6 * MINUTE, 30));
    t.record_push_outcome(key.clone(), 6 * MINUTE, true);
    assert!(t.is_in_cooldown_at(&key, 7 * MINUTE, 30));
    assert!(!t.is_in_cooldown_at(&key, 36 * MINUTE, 30));
}

#[test]
fn frequency_check_follows_only_a_successful_delamination_check() {
    assert_eq!(next_check(AlarmType::DelaminationRate, true), Some(AlarmType::FrequencyOffset));
    assert_eq!(next_check(AlarmType::DelaminationRate, false), None);
    assert_eq!(next_check(AlarmType::FrequencyOffset, true), None);
    assert_eq!(next_check(AlarmType::FrequencyOffset, false), None);
}
