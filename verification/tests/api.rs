use signal_generator::api::{
    auth_ok, create_generator, create_generator_with_id, delete_generator, find_generator, history_limit,
    import_config, toggle_generator, update_generator, update_mqtt_config, ws_token_ok, ImportError,
    MqttConfigError, HISTORY_CAP,
};
use signal_generator::config::{GeneratorConfig, MqttConfig, WaveType};

fn gen(id: &str, catalog: &str) -> GeneratorConfig<f64> {
    GeneratorConfig {
        id: id.to_string(),
        name: format!("name {}", id),
        enabled: true,
        topic: String::new(),
        catalog: catalog.to_string(),
        wave_type: WaveType::Noise,
        interval_ms: 500,
        amplitude: 3.0,
        offset: 5.0,
        frequency: 0.0,
        unit: "bar".to_string(),
        quality: 92,
        min: 0.0,
        max: 12.0,
        drift: 0.02,
        spike_prob: 0.01,
        spike_amp: 5.0,
        noise_amp: 0.1,
        deadband: 0.05,
        hysteresis: 0.02,
        stuck_prob: 0.001,
        stuck_duration_ms: 2000,
        jitter: 15.0,
        trend: 0.0,
        drop_prob: 0.01,
        degradation_rate: 0.0,
        modbus_addr: 0,
        modbus_fn: 0,
        modbus_type: 0,
        modbus_scale: 1.0,
        modbus_slave: 0,
    }
}

fn mqtt() -> MqttConfig {
    MqttConfig::default()
}

#[test]
fn bearer_authorization() {
    let token = Some("s3cret".to_string());
    assert!(auth_ok(&None, None));
    assert!(auth_ok(&None, Some("anything")));
    assert!(auth_ok(&token, Some("Bearer s3cret")));
    assert!(!auth_ok(&token, Some("Bearer wrong")));
    assert!(!auth_ok(&token, Some("s3cret")));
    assert!(!auth_ok(&token, Some("bearer s3cret")));
    assert!(!auth_ok(&token, None));
}

#[test]
fn websocket_token() {
    let token = Some("t".to_string());
    assert!(ws_token_ok(&None, None));
    assert!(ws_token_ok(&token, Some("t")));
    assert!(!ws_token_ok(&token, Some("u")));
    assert!(!ws_token_ok(&token, None));
}

#[test]
fn create_assigns_topic_and_keeps_settings() {
    let mut gens = vec![gen("a", "")];
    let msg = create_generator_with_id(&mut gens, gen("b", "pressure"), "fresh".to_string(), &mqtt());
    assert_eq!(msg, "new:b");
    assert_eq!(gens.len(), 2);
    assert_eq!(gens[1].id, "b");
    assert_eq!(gens[1].topic, "signals/pressure/b");
    assert_eq!(gens[1].name, "name b");
    let msg = create_generator_with_id(&mut gens, gen("", ""), "fresh".to_string(), &mqtt());
    assert_eq!(msg, "new:fresh");
    assert_eq!(gens[2].id, "fresh");
    assert_eq!(gens[2].topic, "signals/fresh");
}

#[test]
fn create_without_id_gets_uuid() {
    let mut gens = Vec::new();
    let msg = create_generator(&mut gens, gen("", ""), &mqtt());
    assert_eq!(gens[0].id.len(), 36);
    assert_eq!(msg, format!("new:{}", gens[0].id));
    assert_eq!(gens[0].topic, format!("signals/{}", gens[0].id));
    let msg = create_generator(&mut gens, gen("given", ""), &mqtt());
    assert_eq!(msg, "new:given");
}

#[test]
fn update_replaces_first_match() {
    let mut gens = vec![gen("a", ""), gen("b", ""), gen("b", "")];
    let mut cfg = gen("other", "flow");
    cfg.interval_ms = 42;
    let msg = update_generator(&mut gens, "b", cfg, &mqtt());
    assert_eq!(msg, Some("update:b".to_string()));
    assert_eq!(gens[1].id, "b");
    assert_eq!(gens[1].interval_ms, 42);
    assert_eq!(gens[1].topic, "signals/flow/b");
    assert_eq!(gens[2].interval_ms, 500);
    assert_eq!(update_generator(&mut gens, "zz", gen("zz", ""), &mqtt()), None);
    assert_eq!(gens.len(), 3);
}

#[test]
fn delete_and_toggle() {
    let mut gens = vec![gen("a", ""), gen("b", "")];
    assert_eq!(toggle_generator(&mut gens, "b"), Some((false, "pause:b".to_string())));
    assert!(!gens[1].enabled);
    assert_eq!(toggle_generator(&mut gens, "b"), Some((true, "resume:b".to_string())));
    assert!(gens[1].enabled);
    assert_eq!(toggle_generator(&mut gens, "c"), None);
    assert_eq!(delete_generator(&mut gens, "a"), Some("remove:a".to_string()));
    assert_eq!(gens.len(), 1);
    assert_eq!(find_generator(&gens, "b"), Some(0));
    assert_eq!(delete_generator(&mut gens, "a"), None);
}

#[test]
fn toggle_twice_restores() {
    let before = vec![gen("a", ""), gen("b", "")];
    let mut gens = before.clone();
    toggle_generator(&mut gens, "a");
    toggle_generator(&mut gens, "a");
    assert_eq!(gens, before);
}

#[test]
fn delete_undoes_create() {
    let before = vec![gen("a", ""), gen("b", "")];
    let mut gens = before.clone();
    create_generator_with_id(&mut gens, gen("c", ""), String::new(), &mqtt());
    delete_generator(&mut gens, "c");
    assert_eq!(gens, before);
}

#[test]
fn mqtt_settings_update() {
    let mut current = MqttConfig { password: "old".to_string(), ..mqtt() };
    let mut gens = vec![gen("a", ""), gen("b", "")];
    gens[0].topic = "NEW/a".to_string();
    let incoming = MqttConfig {
        host: "h".to_string(),
        port: 0,
        username: "u".to_string(),
        password: "••••••".to_string(),
        topic_prefix: "  NEW  ".to_string(),
        diagnostics_topic: "   ".to_string(),
        use_tls: true,
    };
    let msgs = update_mqtt_config(&mut current, incoming, &mut gens).unwrap();
    assert_eq!(current.port, 1883);
    assert_eq!(current.password, "old");
    assert_eq!(current.topic_prefix, "NEW");
    assert_eq!(current.diagnostics_topic, "signals/diagnostics");
    assert!(current.use_tls);
    assert_eq!(gens[0].topic, "NEW/a");
    assert_eq!(gens[1].topic, "NEW/b");
    assert_eq!(msgs, vec!["update:b".to_string()]);

    let before = current.clone();
    let bad = MqttConfig { host: "  ".to_string(), ..mqtt() };
    assert_eq!(update_mqtt_config(&mut current, bad, &mut gens), Err(MqttConfigError::HostRequired));
    assert_eq!(current.host, before.host);
    assert_eq!(current.topic_prefix, before.topic_prefix);
}

#[test]
fn masked_password_roundtrip() {
    let mut current = MqttConfig { password: "pw".to_string(), ..mqtt() };
    let shown = current.masked();
    assert_eq!(shown.password, "••••••");
    let mut gens: Vec<GeneratorConfig<f64>> = Vec::new();
    update_mqtt_config(&mut current, shown, &mut gens).unwrap();
    assert_eq!(current.password, "pw");
    let empty = MqttConfig { password: String::new(), ..mqtt() };
    assert_eq!(empty.masked().password, "");
}

#[test]
fn import_replaces_generators() {
    let mut current = MqttConfig { password: "keep".to_string(), ..mqtt() };
    let mut gens = vec![gen("old", "")];
    let imported = vec![gen("x", "climate"), gen("y", "")];
    let backup_mqtt = MqttConfig { topic_prefix: "B".to_string(), password: "••••••".to_string(), ..mqtt() };
    let msgs = import_config(&mut current, &mut gens, imported, Some(backup_mqtt)).unwrap();
    assert_eq!(msgs, vec!["update:x".to_string(), "update:y".to_string()]);
    assert_eq!(current.topic_prefix, "B");
    assert_eq!(current.password, "keep");
    assert_eq!(gens.len(), 2);
    assert_eq!(gens[0].topic, "B/climate/x");
    assert_eq!(gens[1].topic, "B/y");

    let r = import_config(&mut current, &mut gens, Vec::new(), None);
    assert_eq!(r, Err(ImportError::EmptyGenerators));
    assert_eq!(gens.len(), 2);
}

#[test]
fn history_limits() {
    assert_eq!(history_limit(None), 120);
    assert_eq!(history_limit(Some("10")), 10);
    assert_eq!(history_limit(Some("1000")), HISTORY_CAP);
    assert_eq!(HISTORY_CAP, 180);
    assert_eq!(history_limit(Some("179")), 179);
    assert_eq!(history_limit(Some("181")), 180);
    assert_eq!(history_limit(Some("abc")), 120);
    assert_eq!(history_limit(Some("-5")), 120);
    assert_eq!(history_limit(Some("0")), 0);
}

#[test]
fn generated_ids_are_v4_uuids() {
    let mut gens = Vec::new();
    create_generator(&mut gens, gen("", ""), &mqtt());
    let id: Vec<char> = gens[0].id.chars().collect();
    assert_eq!(id.len(), 36);
    for (i, c) in id.iter().enumerate() {
        if [8, 13, 18, 23].contains(&i) {
            assert_eq!(*c, '-');
        } else {
            assert!(c.is_ascii_digit() || ('a'..='f').contains(c));
        }
    }
    assert_eq!(id[14], '4');
    assert!(['8', '9', 'a', 'b'].contains(&id[19]));
}
