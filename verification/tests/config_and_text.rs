use signal_generator::config::{catalog_key_of, default_diag_topic, default_topic, MqttConfig, WaveType};
use signal_generator::decimal_string;
use signal_generator::scenarios::scenario_instance;
use signal_generator::text::{
    contains, ends_with, parse_unsigned_upto, replace_all, starts_with, strip_prefix, trim, trim_char, trim_end_char,
};

fn mqtt(prefix: &str) -> MqttConfig {
    MqttConfig { topic_prefix: prefix.to_string(), ..MqttConfig::default() }
}

#[test]
fn mqtt_defaults() {
    let c = MqttConfig::default();
    assert_eq!(c.host, "79.174.94.236");
    assert_eq!(c.port, 1883);
    assert_eq!(c.username, "");
    assert_eq!(c.password, "");
    assert_eq!(c.topic_prefix, "signals");
    assert_eq!(c.diagnostics_topic, "signals/diagnostics");
    assert_eq!(c.topic_for("temp-01"), "signals/temp-01");
    assert!(!c.use_tls);
    assert_eq!(default_topic(), "");
    assert_eq!(default_diag_topic(), "signals/diagnostics");
}

#[test]
fn topic_for_prefix_and_id() {
    assert_eq!(mqtt("USEPI").topic_for("temp-01"), "USEPI/temp-01");
    assert_eq!(mqtt("USEPI//").topic_for("temp-01"), "USEPI/temp-01");
    assert_eq!(mqtt("").topic_for("temp-01"), "/temp-01");
    assert_eq!(mqtt("/").topic_for("x"), "/x");
}

#[test]
fn topic_for_catalog_files_under_catalog() {
    let c = mqtt("USEPI/");
    assert_eq!(c.topic_for_catalog("temperature", "t1"), "USEPI/temperature/t1");
    assert_eq!(c.topic_for_catalog(" /water/ ", "w1"), "USEPI/water/w1");
    assert_eq!(c.topic_for_catalog("  ", "w1"), "USEPI/w1");
    assert_eq!(c.topic_for_catalog("//", "w1"), "USEPI/w1");
    assert_eq!(mqtt("").topic_for_catalog("flow", "f"), "/flow/f");
    assert_eq!(catalog_key_of("  /a/b/  "), "a/b");
}

#[test]
fn broker_address() {
    let c = MqttConfig { host: "broker.local".to_string(), port: 8883, ..MqttConfig::default() };
    assert_eq!(c.address(), "broker.local:8883");
}

#[test]
fn wave_labels() {
    assert_eq!(WaveType::Sine.label(), "Sine");
    assert_eq!(WaveType::Sawtooth.label(), "Sawtooth");
    assert_eq!(WaveType::Square.label(), "Square");
    assert_eq!(WaveType::Noise.label(), "Noise");
    assert_eq!(WaveType::Random.label(), "Random");
    assert_eq!(WaveType::Constant.label(), "Constant");
}

#[test]
fn decimal_formatting() {
    assert_eq!(decimal_string(0), "0");
    assert_eq!(decimal_string(7), "7");
    assert_eq!(decimal_string(1883), "1883");
    assert_eq!(decimal_string(u64::MAX), u64::MAX.to_string());
}

#[test]
fn text_helpers_match_std() {
    for s in ["", "  a b  ", "\t\nx\u{3000}", "abc", "   "] {
        assert_eq!(trim(s), s.trim());
        assert_eq!(trim_char(s, ' '), s.trim_matches(' '));
        assert_eq!(trim_end_char(s, ' '), s.trim_end_matches(' '));
    }
    assert!(starts_with("update:x", "update:"));
    assert!(!starts_with("upd", "update:"));
    assert!(ends_with("$SYS/broker/uptime", "/uptime"));
    assert!(!ends_with("uptime", "/uptime"));
    assert!(contains("a_modbus_addr", "_modbus_"));
    assert!(!contains("a_modbu", "_modbus_"));
    assert!(contains("abc", ""));
    assert_eq!(strip_prefix("Bearer tok", "Bearer "), Some("tok"));
    assert_eq!(strip_prefix("bearer tok", "Bearer "), None);
    assert_eq!(replace_all("a--b--", "--", "+"), "a+b+");
    assert_eq!(replace_all("aaa", "aa", "b"), "aaa".replace("aa", "b"));
}

#[test]
fn unsigned_parsing_matches_std() {
    for s in ["0", "42", "+7", "-1", "", "+", "12a", " 1", "4294967295", "4294967296", "18446744073709551615",
        "18446744073709551616", "007"] {
        assert_eq!(parse_unsigned_upto(s, u64::MAX), s.parse::<u64>().ok(), "u64 {:?}", s);
        assert_eq!(parse_unsigned_upto(s, u32::MAX as u64), s.parse::<u32>().ok().map(|v| v as u64), "u32 {:?}", s);
    }
}

#[test]
fn scenario_instance_labels() {
    let l = scenario_instance("temp", "Температура", 1);
    assert_eq!(l.id, "temp-01");
    assert_eq!(l.name, "Температура #1");
    assert_eq!(l.topic, "signals/temp-01");
    assert_eq!(l.quality, 85);
    let l = scenario_instance("press", "Давление", 2);
    assert_eq!(l.id, "press-02");
    assert_eq!(l.quality, 100);
    let l = scenario_instance("x", "X", 12);
    assert_eq!(l.id, "x-12");
    assert_eq!(l.name, "X #12");
    assert_eq!(l.quality, 100);
    let l = scenario_instance("big", "B", u64::MAX);
    assert_eq!(l.quality, 100);
    assert_eq!(l.id, format!("big-{}", u64::MAX));
    let l = scenario_instance("z", "Z", 0);
    assert_eq!(l.quality, 70);
}
