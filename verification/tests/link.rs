use signal_generator::config::MqttConfig;
use signal_generator::link::{
    on_link_event, reconnect_client_id, record_due, session_settings, sys_filter, LinkAction, LinkEvent,
};

#[test]
fn session_without_user_has_no_credentials() {
    let cfg = MqttConfig::default();
    let s = session_settings(&cfg, "signal-generator");
    assert_eq!(s.client_id, "signal-generator");
    assert_eq!(s.host, "79.174.94.236");
    assert_eq!(s.port, 1883);
    assert_eq!(s.keep_alive_secs, 30);
    assert!(s.clean_session);
    assert!(s.credentials.is_none());
    assert!(!s.tls);
}

#[test]
fn session_with_user_carries_credentials_and_tls() {
    let mut cfg = MqttConfig::default();
    cfg.username = "op".to_string();
    cfg.password = "pw".to_string();
    cfg.use_tls = true;
    cfg.port = 8883;
    let s = session_settings(&cfg, "probe");
    assert_eq!(s.client_id, "probe");
    assert_eq!(s.port, 8883);
    assert_eq!(s.credentials, Some(("op".to_string(), "pw".to_string())));
    assert!(s.tls);
}

#[test]
fn session_with_user_but_no_password_has_no_credentials() {
    let mut cfg = MqttConfig::default();
    cfg.username = "op".to_string();
    assert!(session_settings(&cfg, "x").credentials.is_none());
    cfg.username = String::new();
    cfg.password = "pw".to_string();
    assert!(session_settings(&cfg, "x").credentials.is_none());
}

#[test]
fn link_events_move_the_connection_flag() {
    assert!(on_link_event(false, &LinkEvent::ConnAck) == (true, LinkAction::Idle));
    assert!(on_link_event(true, &LinkEvent::Failure) == (false, LinkAction::Pause(5000)));
    assert!(on_link_event(true, &LinkEvent::Outgoing) == (true, LinkAction::Idle));
    assert!(on_link_event(false, &LinkEvent::OtherIncoming) == (false, LinkAction::Idle));
}

#[test]
fn only_sys_messages_reach_the_broker_status() {
    let sys = LinkEvent::Publish("$SYS/broker/uptime".to_string());
    assert!(on_link_event(true, &sys) == (true, LinkAction::ApplySys));
    let other = LinkEvent::Publish("USEPI/t1".to_string());
    assert!(on_link_event(true, &other) == (true, LinkAction::Idle));
    let bare = LinkEvent::Publish("$SYS".to_string());
    assert!(on_link_event(false, &bare) == (false, LinkAction::Idle));
}

#[test]
fn history_records_every_five_seconds() {
    assert!(!record_due(0));
    assert!(!record_due(4999));
    assert!(record_due(5000));
    assert!(record_due(12000));
}

#[test]
fn subscription_and_client_names() {
    assert_eq!(sys_filter(), "$SYS/#");
    assert_eq!(reconnect_client_id(), "signal-generator");
}

fn run(start: bool, events: &[LinkEvent]) -> bool {
    let mut up = start;
    for e in events {
        up = on_link_event(up, e).0;
    }
    up
}

#[test]
fn connection_is_up_after_an_ack_not_followed_by_a_failure() {
    assert!(!run(false, &[]));
    assert!(run(false, &[LinkEvent::ConnAck, LinkEvent::Outgoing, LinkEvent::OtherIncoming]));
    assert!(!run(false, &[LinkEvent::ConnAck, LinkEvent::Failure, LinkEvent::Outgoing]));
    assert!(run(false, &[LinkEvent::Failure, LinkEvent::ConnAck, LinkEvent::Publish("$SYS/x".to_string())]));
    assert!(run(true, &[LinkEvent::Outgoing]));
    assert!(!run(true, &[LinkEvent::Outgoing, LinkEvent::Failure]));
}
