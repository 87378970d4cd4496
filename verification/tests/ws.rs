use signal_generator::models::{build_modbus_signal_at, build_signal_at, EntryValue, FlatEntry};
use signal_generator::ws::{live_tick, payload_id, payload_timestamp, snapshot_positions, SignalTimestamps};

#[test]
fn payload_ids() {
    let p = build_signal_at("t1", "temp-01", "T", 1.0, "C", 0.0, 2.0, 90);
    assert_eq!(payload_id(&p), "temp-01");
    let m = build_modbus_signal_at("t1", "mb", "M", 1.0, "raw", 0.0, 2.0, 90, 1, 3, 0, 1.0, 1);
    assert_eq!(payload_id(&m), "mb");
    let s: Vec<FlatEntry<f64>> = vec![FlatEntry::new("sensor/sensor/x", "X", EntryValue::Measure(1.0))];
    assert_eq!(payload_id(&s), "x");
    let none: Vec<FlatEntry<f64>> = vec![FlatEntry::new("a_unit", "U", EntryValue::Count(1))];
    assert_eq!(payload_id(&none), "");
}

#[test]
fn payload_timestamps() {
    let p = build_signal_at("2026-01-01T00:00:00.000Z", "a", "A", 1.0, "", 0.0, 2.0, 90);
    assert_eq!(payload_timestamp(&p), "2026-01-01T00:00:00.000Z");
    let q: Vec<FlatEntry<f64>> = vec![FlatEntry::new("timestamp", "T", EntryValue::Count(5))];
    assert_eq!(payload_timestamp(&q), "");
    let r: Vec<FlatEntry<f64>> = Vec::new();
    assert_eq!(payload_timestamp(&r), "");
}

#[test]
fn diff_reports_changed_payloads() {
    let mut last = SignalTimestamps::new();
    let mut sigs = vec![
        build_signal_at("1", "a", "A", 1.0, "", 0.0, 2.0, 90),
        build_signal_at("1", "b", "B", 1.0, "", 0.0, 2.0, 90),
    ];
    assert_eq!(last.diff_snapshot(&sigs), vec![0, 1]);
    assert_eq!(last.diff_snapshot(&sigs), Vec::<usize>::new());
    sigs[1] = build_signal_at("2", "b", "B", 1.5, "", 0.0, 2.0, 90);
    assert_eq!(last.diff_snapshot(&sigs), vec![1]);
    assert_eq!(last.last_sent("b"), Some("2".to_string()));
    assert_eq!(last.last_sent("c"), None);
}

#[test]
fn every_tenth_tick_is_a_full_snapshot() {
    let mut count = 0u32;
    let mut fulls = Vec::new();
    for tick in 1..=25u32 {
        let (next, full) = live_tick(count);
        count = next;
        if full {
            fulls.push(tick);
        }
    }
    assert_eq!(fulls, vec![10, 20]);
    assert_eq!(count, 5);
    assert_eq!(live_tick(9), (0, true));
    assert_eq!(live_tick(3), (4, false));
}

#[test]
fn snapshot_lists_only_identified_payloads() {
    let sigs: Vec<Vec<FlatEntry<f64>>> = vec![
        build_signal_at("1", "a", "A", 1.0, "", 0.0, 2.0, 90),
        vec![FlatEntry::new("a_unit", "U", EntryValue::Count(1))],
        build_signal_at("1", "c", "C", 1.0, "", 0.0, 2.0, 90),
    ];
    assert_eq!(snapshot_positions(&sigs), vec![0, 2]);
    assert_eq!(snapshot_positions(&Vec::<Vec<FlatEntry<f64>>>::new()), Vec::<usize>::new());
}

#[test]
fn repeated_generator_with_equal_stamps_settles() {
    let mut last = SignalTimestamps::new();
    let sigs = vec![
        build_signal_at("5", "a", "A", 1.0, "", 0.0, 2.0, 90),
        build_signal_at("5", "a", "A", 2.0, "", 0.0, 2.0, 90),
    ];
    assert_eq!(last.diff_snapshot(&sigs), vec![0]);
    assert_eq!(last.diff_snapshot(&sigs), Vec::<usize>::new());
}

#[test]
fn a_null_value_names_no_generator() {
    let p: Vec<FlatEntry<f64>> = vec![FlatEntry::new("x", "X", EntryValue::Null)];
    assert_eq!(payload_id(&p), "");
    assert_eq!(snapshot_positions(&vec![p]), Vec::<usize>::new());
}
