use wind_turbine_blade_monitor::ids::{
    decimal_string, engine_alarm_id, new_engine_alarm_id, new_pusher_alarm_id,
    padded_decimal_string, pusher_alarm_id, signed_decimal_string, turbine_label_string,
};

#[test]
fn decimal_texts() {
    assert_eq!(decimal_string(0), "0");
    assert_eq!(decimal_string(7), "7");
    assert_eq!(decimal_string(1234567890), "1234567890");
    assert_eq!(decimal_string(u64::MAX), u64::MAX.to_string());
    assert_eq!(signed_decimal_string(-42), "-42");
    assert_eq!(signed_decimal_string(i64::MIN), i64::MIN.to_string());
    assert_eq!(padded_decimal_string(7, 3), "007");
    assert_eq!(padded_decimal_string(1234, 3), "1234");
}

#[test]
fn turbine_labels() {
    assert_eq!(turbine_label_string(1), "WT001");
    assert_eq!(turbine_label_string(42), "WT042");
    assert_eq!(turbine_label_string(100), "WT100");
}

#[test]
fn alarm_ids() {
    assert_eq!(engine_alarm_id("abc"), "ALARM-abc");
    assert_eq!(pusher_alarm_id(1700000000, "ff"), "ALARM-1700000000-ff");
    let bytes: [u8; 16] = [
        0x12, 0x34, 0x56, 0x78, 0x9a, 0xbc, 0xde, 0xf0, 0xff, 0x01, 0x23, 0x45, 0x67, 0x89, 0xab, 0xcd,
    ];
    assert_eq!(new_engine_alarm_id(bytes), "ALARM-12345678-9abc-4ef0-bf01-23456789abcd");
    assert_eq!(new_pusher_alarm_id(1700000000, bytes), "ALARM-1700000000-123456789abc4ef0bf0123456789abcd");
    assert_eq!(new_engine_alarm_id([0; 16]), "ALARM-00000000-0000-4000-8000-000000000000");
    assert_ne!(new_engine_alarm_id([1; 16]), new_engine_alarm_id([2; 16]));
}

#[test]
fn alarm_ids_carry_version_four_uuids() {
    let e = new_engine_alarm_id([0xff; 16]);
    let u: Vec<char> = e[6..].chars().collect();
    assert_eq!(u.len(), 36);
    for (i, c) in u.iter().enumerate() {
        if [8, 13, 18, 23].contains(&i) {
            assert_eq!(*c, '-');
        } else {
            assert!(c.is_ascii_digit() || ('a'..='f').contains(c));
        }
    }
    assert_eq!(u[14], '4');
    assert!("89ab".contains(u[19]));
    let p = new_pusher_alarm_id(-5, [0x5a; 16]);
    assert!(p.starts_with("ALARM--5-"));
    let s: Vec<char> = p[p.len() - 32..].chars().collect();
    assert_eq!(s[12], '4');
    assert!("89ab".contains(s[16]));
}
