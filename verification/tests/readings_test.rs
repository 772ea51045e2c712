use wind_turbine_blade_monitor::errors::StrainInterpolatorError;
use wind_turbine_blade_monitor::readings::{check_sensor_count, ReadingBuffer};

#[test]
fn interpolation_is_due_at_the_threshold() {
    let mut b: ReadingBuffer<(i32, i32)> = ReadingBuffer::new();
    let mut due_at = Vec::new();
    for i in 0..15 {
        if b.push_reading("WT001", "A", (i, i * 50), i as i64, 10) {
            due_at.push(i);
        }
    }
    assert_eq!(due_at, vec![9, 10, 11, 12, 13, 14]);
    assert_eq!(b.sensor_count("WT001", "A"), 15);
    assert_eq!(b.readings("WT001", "A").unwrap()[3], (3, 150));
}

#[test]
fn clearing_after_interpolation_starts_over() {
    let mut b: ReadingBuffer<i32> = ReadingBuffer::new();
    for i in 0..10 {
        b.push_reading("WT001", "A", i, 0, 10);
    }
    b.clear_series("WT001", "A");
    assert_eq!(b.sensor_count("WT001", "A"), 0);
    assert!(b.readings("WT001", "A").is_some());
    assert!(!b.push_reading("WT001", "A", 1, 0, 10));
    b.remove_blade("WT001", "A");
    assert!(b.readings("WT001", "A").is_none());
    assert_eq!(b.sensor_count("WT002", "A"), 0);
}

#[test]
fn blades_are_buffered_apart() {
    let mut b: ReadingBuffer<i32> = ReadingBuffer::new();
    b.push_reading("WT001", "A", 1, 0, 10);
    b.push_reading("WT001", "B", 2, 0, 10);
    b.push_reading("WT002", "A", 3, 0, 10);
    assert_eq!(b.sensor_count("WT001", "A"), 1);
    assert_eq!(b.sensor_count("WT001", "B"), 1);
    assert_eq!(b.sensor_count("WT002", "A"), 1);
}

#[test]
fn fewer_than_three_readings_are_refused() {
    assert!(check_sensor_count(3).is_ok());
    match check_sensor_count(2) {
        Err(StrainInterpolatorError::InterpolationError(m)) => {
            assert_eq!(m, "传感器数量不足，需要至少3个，当前2个");
        }
        _ => panic!("expected an interpolation error"),
    }
}

#[test]
fn readings_stay_buffered_when_interpolation_fails() {
    let mut b: ReadingBuffer<i32> = ReadingBuffer::new();
    for i in 0..10 {
        b.push_reading("WT005", "C", i, 100 + i as i64, 10);
    }
    b.finish_interpolation("WT005", "C", false);
    assert_eq!(b.sensor_count("WT005", "C"), 10);
    b.finish_interpolation("WT005", "C", true);
    assert_eq!(b.sensor_count("WT005", "C"), 0);
    assert!(b.readings("WT005", "C").is_some());
    b.finish_interpolation("WT006", "A", true);
    assert!(b.readings("WT006", "A").is_none());
}
