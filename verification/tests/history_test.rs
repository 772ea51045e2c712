use wind_turbine_blade_monitor::history::{push_bounded, tail_window, KeyedHistory};

#[test]
fn bounded_push_drops_the_oldest() {
    let mut v = vec![1, 2, 3];
    push_bounded(&mut v, 4, 3);
    assert_eq!(v, vec![2, 3, 4]);
    push_bounded(&mut v, 5, 4);
    assert_eq!(v, vec![2, 3, 4, 5]);
}

#[test]
fn bounded_push_with_zero_capacity_keeps_nothing() {
    let mut v: Vec<i32> = Vec::new();
    push_bounded(&mut v, 1, 0);
    assert!(v.is_empty());
}

#[test]
fn keyed_history_keeps_ten_most_recent() {
    let mut h: KeyedHistory<(i64, i32)> = KeyedHistory::new();
    let key = "freq_WT001_A_mid".to_string();
    for i in 0..15 {
        h.record(key.clone(), (i as i64, i), 10);
    }
    let v = h.get(&key).unwrap();
    assert_eq!(v.len(), 10);
    assert_eq!(v[0], (5, 5));
    assert_eq!(v[9], (14, 14));
    assert!(h.get(&"freq_WT002_A_mid".to_string()).is_none());
}

#[test]
fn tail_window_takes_the_last_items() {
    let v = vec![1, 2, 3, 4, 5, 6];
    assert_eq!(tail_window(&v, 5), vec![2, 3, 4, 5, 6]);
    assert_eq!(tail_window(&v, 10), v);
    assert!(tail_window(&v, 0).is_empty());
}
