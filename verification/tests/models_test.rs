use wind_turbine_blade_monitor::models::{AlarmLevel, AlarmType, ApiResponse, DamageType};

#[test]
fn api_response_success_wraps_data() {
    let r = ApiResponse::success(42);
    assert!(r.success);
    assert_eq!(r.message, "操作成功");
    assert_eq!(r.data, Some(42));
}

#[test]
fn api_response_error_has_no_data() {
    let r: ApiResponse<i32> = ApiResponse::error("查询失败");
    assert!(!r.success);
    assert_eq!(r.message, "查询失败");
    assert!(r.data.is_none());
}

#[test]
fn labels_match_stored_texts() {
    assert_eq!(AlarmLevel::Level1.label(), "一级");
    assert_eq!(AlarmLevel::Level2.label(), "二级");
    assert_eq!(AlarmType::DelaminationRate.label(), "delamination_rate");
    assert_eq!(AlarmType::FrequencyOffset.label(), "frequency_offset");
    assert_eq!(DamageType::NoDamage.label(), "none");
    assert_eq!(DamageType::MatrixCracking.label(), "matrix");
    assert_eq!(DamageType::FiberBreakage.label(), "fiber");
    assert_eq!(DamageType::Delamination.label(), "delamination");
    assert_eq!(DamageType::Combined.label(), "combined");
}

use wind_turbine_blade_monitor::models::{HealthStatus, HistoryQuery};

#[test]
fn history_query_defaults() {
    let q = HistoryQuery { turbine_id: "WT001".to_string(), blade_id: "A".to_string(), section: None, hours: None };
    assert_eq!(q.effective_hours(), 24);
    assert_eq!(q.effective_section(), "mid");
    let q = HistoryQuery { turbine_id: "WT001".to_string(), blade_id: "A".to_string(), section: Some("tip".to_string()), hours: Some(6) };
    assert_eq!(q.effective_hours(), 6);
    assert_eq!(q.effective_section(), "tip");
}

#[test]
fn health_status_reports_ok() {
    let s = HealthStatus::running("0.1.0");
    assert_eq!(s.status, "ok");
    assert_eq!(s.version, "0.1.0");
}
