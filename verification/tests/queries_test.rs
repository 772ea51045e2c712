use wind_turbine_blade_monitor::time_text::history_window_at;
use wind_turbine_blade_monitor::queries::{
    acknowledge_query, ae_events_query, alarm_lookup_query, alarms_query, mes_status_query,
    strain_history_query,
};

#[test]
fn strain_history_query_text() {
    let q = strain_history_query("raw_data", "WT001", "A", "mid", "S", "E");
    assert_eq!(
        q,
        "SELECT time, strain_value FROM \"raw_data\".\"strain_data\" \n               WHERE turbine_id = 'WT001' AND blade_id = 'A' AND section = 'mid'\n               AND time >= 'S' AND time <= 'E'\n               ORDER BY time ASC"
    );
}

#[test]
fn ae_events_query_text() {
    let q = ae_events_query("raw_data", "WT002", "B", "tip", "S", "E");
    assert_eq!(
        q,
        "SELECT time, amplitude, duration, frequency_peak FROM \"raw_data\".\"ae_events\" \n               WHERE turbine_id = 'WT002' AND blade_id = 'B' AND section = 'tip'\n               AND time >= 'S' AND time <= 'E'\n               ORDER BY time ASC"
    );
}

#[test]
fn alarms_query_text() {
    let all = alarms_query(100, None);
    assert_eq!(
        all,
        "SELECT time, alarm_id, turbine_id, blade_id, alarm_level, alarm_type, \n                      message, threshold, actual_value, acknowledged, mes_pushed\n               FROM \"daily_agg\".\"alarms\"\n               WHERE time > now() - 7d \n               ORDER BY time DESC\n               LIMIT 100"
    );
    let open = alarms_query(1000, Some(0));
    assert!(open.contains("WHERE time > now() - 7d AND acknowledged = 0\n"));
    assert!(open.ends_with("LIMIT 1000"));
    assert!(alarms_query(-1, Some(-2)).ends_with("AND acknowledged = -2\n               ORDER BY time DESC\n               LIMIT -1"));
}

#[test]
fn alarm_statements() {
    assert_eq!(
        alarm_lookup_query("ALARM-1"),
        "SELECT * FROM \"daily_agg\".\"alarms\" WHERE alarm_id = 'ALARM-1' LIMIT 1"
    );
    let ack = acknowledge_query("ALARM-1");
    assert!(ack.starts_with("INSERT INTO \"daily_agg\".\"alarms\" \n"));
    assert!(ack.contains("actual_value, 1, mes_pushed, alarm_id"));
    assert!(ack.ends_with("WHERE alarm_id = 'ALARM-1'"));
    let mes = mes_status_query("ALARM-2", 1);
    assert!(mes.contains("acknowledged, 1, alarm_id\n"));
    assert!(mes.ends_with("WHERE alarm_id = 'ALARM-2'"));
}

#[test]
fn history_window_texts() {
    let (start, end) = history_window_at(1_700_000_000, 0, 24).unwrap();
    assert_eq!(start, "2023-11-13T22:13:20+00:00");
    assert_eq!(end, "2023-11-14T22:13:20+00:00");
    let (start, end) = history_window_at(1_700_000_000, 500_000_000, 1).unwrap();
    assert_eq!(start, "2023-11-14T21:13:20.500+00:00");
    assert_eq!(end, "2023-11-14T22:13:20.500+00:00");
    assert!(history_window_at(i64::MAX / 1000, 0, 0).is_none());
}
