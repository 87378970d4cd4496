use signal_generator::models::{
    build_modbus_signal, build_modbus_signal_at, build_signal, build_signal_at, current_signal, find_signal,
    store_signal, EntryValue, FlatEntry,
};

#[test]
fn test_build_signal_structure() {
    let s = build_signal("temp-01", "Температура", 25.5, "°C", 0.0, 100.0, 95);
    assert_eq!(s.len(), 7);
    for e in &s {
        assert!(!e.id.is_empty(), "@id required");
        assert_eq!(e.entry_type, "value");
    }
    let val = s.iter().find(|e| e.id == "temp-01").unwrap();
    assert_eq!(val.entry_value, EntryValue::Measure(25.5));
    let q = s.iter().find(|e| e.id == "temp-01_quality").unwrap();
    assert_eq!(q.entry_value, EntryValue::Count(95));
    assert!(s.iter().any(|e| e.id == "timestamp"));
}

#[test]
fn test_build_modbus_signal_has_modbus_fields() {
    let s = build_modbus_signal("valve-01", "Клапан", 50.0, "%", 0.0, 100.0, 90, 28, 3, 0, 1.0, 1);
    assert_eq!(s.len(), 12);
    let addr = s.iter().find(|e| e.id == "valve-01_modbus_addr").unwrap();
    assert_eq!(addr.entry_value, EntryValue::Count(28));
    let slave = s.iter().find(|e| e.id == "valve-01_modbus_slave").unwrap();
    assert_eq!(slave.entry_value, EntryValue::Count(1));
}

#[test]
fn signal_layout_at_given_time() {
    let s = build_signal_at("2026-07-29T20:00:00.000Z", "t", "T", 1.5, "bar", -1.0, 9.0, 100);
    let ids: Vec<&str> = s.iter().map(|e| e.id.as_str()).collect();
    assert_eq!(ids, vec!["timestamp", "response_code", "t", "t_unit", "t_min", "t_max", "t_quality"]);
    assert_eq!(s[0].entry_value, EntryValue::Text("2026-07-29T20:00:00.000Z".to_string()));
    assert_eq!(s[1].entry_value, EntryValue::Text("Success. No Command-Specific Errors".to_string()));
    assert_eq!(s[1].name, "Код ответа");
    assert_eq!(s[3].entry_value, EntryValue::Text("bar".to_string()));
    assert_eq!(s[3].name, "Единица измерения");
    assert_eq!(s[4].entry_value, EntryValue::Measure(-1.0));
    assert_eq!(s[5].entry_value, EntryValue::Measure(9.0));
    assert_eq!(s[6].entry_value, EntryValue::Count(100));
}

#[test]
fn modbus_layout_extends_signal_layout() {
    let base = build_signal_at("ts", "mb", "M", 3.0, "raw", 0.0, 1000.0, 95);
    let s = build_modbus_signal_at("ts", "mb", "M", 3.0, "raw", 0.0, 1000.0, 95, 4001, 3, 2, 0.1, 7);
    assert_eq!(&s[..7], &base[..]);
    let ids: Vec<&str> = s[7..].iter().map(|e| e.id.as_str()).collect();
    assert_eq!(ids, vec!["mb_modbus_addr", "mb_modbus_fn", "mb_modbus_type", "mb_modbus_scale", "mb_modbus_slave"]);
    assert_eq!(s[7].entry_value, EntryValue::Count(4001));
    assert_eq!(s[8].entry_value, EntryValue::Count(3));
    assert_eq!(s[9].entry_value, EntryValue::Count(2));
    assert_eq!(s[10].entry_value, EntryValue::Measure(0.1));
    assert_eq!(s[11].entry_value, EntryValue::Count(7));
    assert_eq!(s[11].name, "Modbus slave ID");
}

#[test]
fn current_signal_matches_build_signal_layout() {
    let s = current_signal("x", "X", 2.0, "u", 0.0, 4.0, 50);
    assert_eq!(s.len(), 7);
    assert_eq!(s[2].id, "x");
    assert_eq!(s[6].entry_value, EntryValue::Count(50));
}

#[test]
fn flat_entry_new_has_type_value() {
    let e: FlatEntry<f64> = FlatEntry::new("a", "b", EntryValue::Count(3));
    assert_eq!(e.id, "a");
    assert_eq!(e.name, "b");
    assert_eq!(e.entry_type, "value");
    assert_eq!(e.entry_value, EntryValue::Count(3));
}

#[test]
fn store_then_find_signal() {
    let mut sigs: Vec<Vec<FlatEntry<f64>>> = Vec::new();
    assert_eq!(find_signal(&sigs, "a"), None);
    store_signal(&mut sigs, "a", build_signal_at("1", "a", "A", 1.0, "", 0.0, 1.0, 1));
    store_signal(&mut sigs, "b", build_signal_at("1", "b", "B", 2.0, "", 0.0, 1.0, 1));
    assert_eq!(sigs.len(), 2);
    store_signal(&mut sigs, "a", build_signal_at("2", "a", "A", 3.0, "", 0.0, 1.0, 1));
    assert_eq!(sigs.len(), 2);
    assert_eq!(find_signal(&sigs, "a"), Some(0));
    assert_eq!(sigs[0][2].entry_value, EntryValue::Measure(3.0));
    assert_eq!(find_signal(&sigs, "b"), Some(1));
    assert_eq!(find_signal(&sigs, "c"), None);
    // a payload that names the generator as sensor/{id} is found too
    let other = vec![FlatEntry::new("sensor/c", "C", EntryValue::Measure(0.5))];
    sigs.push(other);
    assert_eq!(find_signal(&sigs, "c"), Some(2));
}

fn tag(id: &str, modbus_addr: u16) -> signal_generator::config::GeneratorConfig<f64> {
    signal_generator::config::GeneratorConfig {
        id: id.to_string(),
        name: "Tag".to_string(),
        enabled: true,
        topic: String::new(),
        catalog: String::new(),
        wave_type: signal_generator::config::WaveType::Sine,
        interval_ms: 1000,
        amplitude: 1.0,
        offset: 0.0,
        frequency: 0.1,
        unit: "kPa".to_string(),
        quality: 100,
        min: -5.0,
        max: 5.0,
        drift: 0.0,
        spike_prob: 0.0,
        spike_amp: 0.0,
        noise_amp: 0.0,
        deadband: 0.0,
        hysteresis: 0.0,
        stuck_prob: 0.0,
        stuck_duration_ms: 0,
        jitter: 0.0,
        trend: 0.0,
        drop_prob: 0.0,
        degradation_rate: 0.0,
        modbus_addr,
        modbus_fn: 4,
        modbus_type: 1,
        modbus_scale: 0.5,
        modbus_slave: 7,
    }
}

#[test]
fn generator_signal_without_modbus_is_the_plain_payload() {
    let s = signal_generator::models::generator_signal(&tag("p1", 0), 2.5, 80);
    let ids: Vec<&str> = s.iter().map(|e| e.id.as_str()).collect();
    assert_eq!(ids, vec!["timestamp", "response_code", "p1", "p1_unit", "p1_min", "p1_max", "p1_quality"]);
    assert_eq!(s[2].entry_value, EntryValue::Measure(2.5));
    assert_eq!(s[4].entry_value, EntryValue::Measure(-5.0));
    assert_eq!(s[6].entry_value, EntryValue::Count(80));
}

#[test]
fn generator_signal_with_modbus_adds_the_modbus_fields() {
    let s = signal_generator::models::generator_signal(&tag("m1", 300), 1.0, 99);
    assert_eq!(s.len(), 12);
    assert_eq!(s[7].id, "m1_modbus_addr");
    assert_eq!(s[7].entry_value, EntryValue::Count(300));
    assert_eq!(s[8].entry_value, EntryValue::Count(4));
    assert_eq!(s[9].entry_value, EntryValue::Count(1));
    assert_eq!(s[10].entry_value, EntryValue::Measure(0.5));
    assert_eq!(s[11].entry_value, EntryValue::Count(7));
}

#[test]
fn payload_time_stamps_have_the_iso_shape() {
    let s = build_signal("t", "T", 1.0, "", 0.0, 2.0, 100);
    let ts = match &s[0].entry_value {
        EntryValue::Text(t) => t.clone(),
        _ => panic!("timestamp is text"),
    };
    let c: Vec<char> = ts.chars().collect();
    let n = c.len();
    assert!(n >= 24);
    assert_eq!(c[n - 20], '-');
    assert_eq!(c[n - 17], '-');
    assert_eq!(c[n - 14], 'T');
    assert_eq!(c[n - 11], ':');
    assert_eq!(c[n - 8], ':');
    assert_eq!(c[n - 5], '.');
    assert_eq!(c[n - 1], 'Z');
    for k in [19, 18, 16, 15, 13, 12, 10, 9, 7, 6, 4, 3, 2] {
        assert!(c[n - k].is_ascii_digit());
    }
}
