use signal_generator::config::{GeneratorConfig, WaveType};
use signal_generator::supervisor::{command_message, plan_cycle, restart_position, restart_target, CommandKind};

fn gen(id: &str, enabled: bool) -> GeneratorConfig<f64> {
    GeneratorConfig {
        id: id.to_string(),
        name: id.to_string(),
        enabled,
        topic: String::new(),
        catalog: String::new(),
        wave_type: WaveType::Constant,
        interval_ms: 1000,
        amplitude: 1.0,
        offset: 1.0,
        frequency: 0.0,
        unit: String::new(),
        quality: 100,
        min: 0.0,
        max: 1.0,
        drift: 0.0,
        spike_prob: 0.0,
        spike_amp: 0.0,
        noise_amp: 0.0,
        deadband: 0.0,
        hysteresis: 0.0,
        stuck_prob: 0.0,
        stuck_duration_ms: 0,
        jitter: 0.0,
        trend: 0.0,
        drop_prob: 0.0,
        degradation_rate: 0.0,
        modbus_addr: 0,
        modbus_fn: 0,
        modbus_type: 0,
        modbus_scale: 1.0,
        modbus_slave: 0,
    }
}

#[test]
fn messages_and_targets() {
    assert_eq!(command_message(CommandKind::New, "a"), "new:a");
    assert_eq!(command_message(CommandKind::Update, "a"), "update:a");
    assert_eq!(command_message(CommandKind::Remove, "a"), "remove:a");
    assert_eq!(command_message(CommandKind::Resume, "a"), "resume:a");
    assert_eq!(command_message(CommandKind::Pause, "a"), "pause:a");
    for k in [CommandKind::New, CommandKind::Update, CommandKind::Remove, CommandKind::Resume, CommandKind::Pause] {
        let m = command_message(k, "gen-1");
        let expected = if k == CommandKind::Update || k == CommandKind::Remove { Some("gen-1") } else { None };
        assert_eq!(restart_target(&m), expected);
    }
}

#[test]
fn restart_positions() {
    let ids = vec!["a".to_string(), "b".to_string(), "b".to_string()];
    assert_eq!(restart_position(&ids, "update:b"), Some(1));
    assert_eq!(restart_position(&ids, "remove:a"), Some(0));
    assert_eq!(restart_position(&ids, "pause:a"), None);
    assert_eq!(restart_position(&ids, "update:c"), None);
}

#[test]
fn cycle_starts_missing_and_drops_disabled() {
    let gens = vec![gen("a", true), gen("b", false), gen("c", true), gen("d", true)];
    let tasks = vec![
        ("a".to_string(), false),
        ("b".to_string(), false),
        ("c".to_string(), true),
        ("x".to_string(), false),
    ];
    let plan = plan_cycle(&gens, &tasks);
    assert_eq!(plan.start, vec![2, 3]);
    assert_eq!(plan.keep, vec![true, false, true, false, true, true]);
}

#[test]
fn cycle_with_duplicate_ids_starts_once() {
    let gens = vec![gen("a", true), gen("a", true)];
    let plan = plan_cycle(&gens, &Vec::new());
    assert_eq!(plan.start, vec![0]);
    assert_eq!(plan.keep, vec![true]);
}
