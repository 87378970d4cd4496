use signal_generator::broker::{sys_field_of, BrokerHistory, BrokerStatus, SysField};
use signal_generator::config::{GeneratorConfig, WaveType};
use signal_generator::diagnostics::{active_count, build_diagnostics_at, modbus_count, total_interval_fits};
use signal_generator::history::{window_start, SignalHistory};
use signal_generator::models::EntryValue;

fn gen(id: &str, enabled: bool, interval_ms: u64, modbus_addr: u16) -> GeneratorConfig<f64> {
    GeneratorConfig {
        id: id.to_string(),
        name: id.to_string(),
        enabled,
        topic: String::new(),
        catalog: String::new(),
        wave_type: WaveType::Sine,
        interval_ms,
        amplitude: 1.0,
        offset: 0.0,
        frequency: 0.1,
        unit: String::new(),
        quality: 100,
        min: 0.0,
        max: 1.0,
        drift: 0.0,
        spike_prob: 0.0,
        spike_amp: 0.0,
        noise_amp: 0.0,
        deadband: 0.0,
        hysteresis: 0.0,
        stuck_prob: 0.0,
        stuck_duration_ms: 0,
        jitter: 0.0,
        trend: 0.0,
        drop_prob: 0.0,
        degradation_rate: 0.0,
        modbus_addr,
        modbus_fn: 3,
        modbus_type: 0,
        modbus_scale: 1.0,
        modbus_slave: 1,
    }
}

#[test]
fn diagnostics_payload() {
    let gens = vec![gen("a", true, 1000, 0), gen("b", false, 500, 4001), gen("c", true, 101, 7)];
    assert_eq!(active_count(&gens), 2);
    assert_eq!(modbus_count(&gens), 2);
    assert!(total_interval_fits(&gens));
    let p = build_diagnostics_at("T", "1.2.3", 77, &gens, true, 4.5, 9);
    let ids: Vec<&str> = p.iter().map(|e| e.id.as_str()).collect();
    assert_eq!(ids, vec![
        "timestamp",
        "response_code",
        "system_version",
        "system_uptime_sec",
        "system_mqtt",
        "system_generators_total",
        "system_generators_active",
        "system_generators_modbus",
        "system_avg_interval_ms",
        "system_signal_rate_hz",
        "system_signals_cached",
    ]);
    assert_eq!(p[1].entry_value, EntryValue::Text("Success. Diagnostics".to_string()));
    assert_eq!(p[2].entry_value, EntryValue::Text("1.2.3".to_string()));
    assert_eq!(p[3].entry_value, EntryValue::Count(77));
    assert_eq!(p[4].entry_value, EntryValue::Text("connected".to_string()));
    assert_eq!(p[5].entry_value, EntryValue::Count(3));
    assert_eq!(p[6].entry_value, EntryValue::Count(2));
    assert_eq!(p[7].entry_value, EntryValue::Count(2));
    assert_eq!(p[8].entry_value, EntryValue::Count(533));
    assert_eq!(p[9].entry_value, EntryValue::Measure(4.5));
    assert_eq!(p[10].entry_value, EntryValue::Count(9));
    let empty: Vec<GeneratorConfig<f64>> = Vec::new();
    let p = build_diagnostics_at("T", "v", 0, &empty, false, 0.0, 0);
    assert_eq!(p[4].entry_value, EntryValue::Text("disconnected".to_string()));
    assert_eq!(p[8].entry_value, EntryValue::Count(0));
}

#[test]
fn interval_overflow_detected() {
    let gens = vec![gen("a", true, u64::MAX, 0), gen("b", true, 1, 0)];
    assert!(!total_interval_fits(&gens));
}

#[test]
fn sys_topics() {
    assert_eq!(sys_field_of("$SYS/broker/version"), Some(SysField::Version));
    assert_eq!(sys_field_of("$SYS/broker/clients/connected"), Some(SysField::ClientsConnected));
    assert_eq!(sys_field_of("$SYS/broker/retained messages/count"), Some(SysField::RetainedCount));
    assert_eq!(sys_field_of("$SYS/broker/store/messages/count"), Some(SysField::StoreCount));
    assert_eq!(sys_field_of("$SYS/broker/load/sockets"), Some(SysField::LoadSockets));
    assert_eq!(sys_field_of("$SYS/broker/load/messages/sent/1min"), None);
    assert_eq!(sys_field_of("version"), None);
}

#[test]
fn sys_reports_update_status() {
    let mut s = BrokerStatus::new_at(0.0, "00:00:00".to_string());
    assert_eq!(s.version, "—");
    s.parse_sys_at("$SYS/broker/version", "mosquitto 2.0", None, "10:00:00".to_string());
    assert_eq!(s.version, "mosquitto 2.0");
    assert_eq!(s.last_update, "10:00:00");
    s.parse_sys_at("$SYS/broker/uptime", "1234", None, "10:00:01".to_string());
    assert_eq!(s.uptime, 1234);
    s.parse_sys_at("$SYS/broker/uptime", "1234 seconds", None, "10:00:02".to_string());
    assert_eq!(s.uptime, 1234);
    s.parse_sys_at("$SYS/broker/clients/total", "4294967296", None, "t".to_string());
    assert_eq!(s.clients_total, 0);
    s.parse_sys_at("$SYS/broker/clients/total", "12", None, "t".to_string());
    assert_eq!(s.clients_total, 12);
    s.parse_sys_at("$SYS/broker/messages/sent", "99", None, "t".to_string());
    assert_eq!(s.messages_sent, 99);
    s.parse_sys_at("$SYS/broker/load/connections", "0.75", Some(0.75), "t".to_string());
    assert_eq!(s.load_connections, 0.75);
    s.parse_sys_at("$SYS/broker/load/connections", "x", None, "t".to_string());
    assert_eq!(s.load_connections, 0.75);
    s.parse_sys_at("$SYS/broker/unknown", "5", Some(5.0), "t".to_string());
    assert_eq!(s.uptime, 1234);
}

#[test]
fn broker_history_is_bounded() {
    let mut h: BrokerHistory<u32> = BrokerHistory::new(3);
    assert_eq!(h.len(), 0);
    assert_eq!(h.last(), None);
    for i in 0..5 {
        h.push(i);
        assert!(h.len() <= 3);
        assert_eq!(h.last(), Some(&i));
    }
    assert_eq!(h.snapshot(), vec![2, 3, 4]);
    assert_eq!(h.capacity(), 3);
}

#[test]
fn broker_history_deltas() {
    let mut h: BrokerHistory<u32> = BrokerHistory::new(2);
    let mut s = BrokerStatus::new_at(0.0, String::new());
    s.messages_sent = 10;
    s.messages_received = 5;
    s.bytes_sent = 100;
    s.bytes_received = 50;
    assert_eq!(h.advance(&s), (15, 150));
    s.messages_sent = 20;
    s.bytes_received = 60;
    assert_eq!(h.advance(&s), (10, 10));
    assert_eq!(h.totals(), (25, 160));
}

#[test]
fn signal_history_keeps_newest() {
    let mut h: SignalHistory<u32> = SignalHistory::new();
    assert!(h.points("a").is_none());
    for i in 0..305u32 {
        h.record("a", i);
    }
    h.record("b", 7);
    let a = h.points("a").unwrap();
    assert_eq!(a.len(), 180);
    assert_eq!(a[0], 125);
    assert_eq!(*a.back().unwrap(), 304);
    assert_eq!(h.points("b").unwrap().iter().copied().collect::<Vec<u32>>(), vec![7]);
    assert_eq!(window_start(300, 120), 180);
    assert_eq!(window_start(10, 120), 0);
}

#[test]
fn broker_status_clock_has_the_clock_shape() {
    let s: BrokerStatus<f64> = BrokerStatus::new(0.0);
    let c: Vec<char> = s.last_update.chars().collect();
    assert_eq!(c.len(), 8);
    assert_eq!(c[2], ':');
    assert_eq!(c[5], ':');
    for k in [0, 1, 3, 4, 6, 7] {
        assert!(c[k].is_ascii_digit());
    }
}
