use wind_turbine_blade_monitor::mes::MesPusher;
use wind_turbine_blade_monitor::models::MesResponse;

#[test]
fn disabled_pushes_are_recorded_locally() {
    let a = MesResponse::disabled_for_alarm("ALARM-7");
    assert!(a.success);
    assert_eq!(a.message, "MES推送已禁用，本地记录成功");
    assert_eq!(a.mes_reference_id.as_deref(), Some("LOCAL-ALARM-7"));
    let d = MesResponse::disabled_for_damage_report("WT001", "A");
    assert_eq!(d.mes_reference_id.as_deref(), Some("LOCAL-DMG-WT001-A"));
    let m = MesResponse::disabled_for_maintenance_task("WT001", "A");
    assert_eq!(m.mes_reference_id.as_deref(), Some("LOCAL-MAINT-WT001-A"));
    let ok = MesResponse::accepted_without_reply();
    assert!(ok.success);
    assert_eq!(ok.message, "推送成功");
    assert!(ok.mes_reference_id.is_none());
}

#[test]
fn pusher_settings() {
    let p = MesPusher::from_parts(
        reqwest::Client::new(),
        "http://mes.example.com/api/alerts".to_string(),
        "tok".to_string(),
        false,
    );
    assert!(!p.is_enabled());
    assert_eq!(p.get_api_url(), "http://mes.example.com/api/alerts");
    assert_eq!(p.authorization(), "Bearer tok");
}
