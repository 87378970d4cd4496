//! The decisions of the MQTT connection: the session settings drawn from the
//! broker settings, and what the event loop does with each event it polls.
use vstd::prelude::*;
use vstd::string::*;
use crate::config::MqttConfig;
use crate::text::{has_prefix, starts_with};

verus! {

/// Keep-alive interval of the MQTT session, in seconds.
pub const KEEP_ALIVE_SECS: u64 = 30;

/// Capacity of the session's request queue.
pub const REQUEST_QUEUE: usize = 100;

/// Pause of the event loop after a connection error, in milliseconds.
pub const ERROR_PAUSE_MS: u64 = 5000;

/// Interval between two broker history records, in milliseconds.
pub const RECORD_INTERVAL_MS: u64 = 5000;

/// Capacity of the broker history.
pub const BROKER_HISTORY_CAPACITY: usize = 120;

/// The subscription filter of the broker's `$SYS` metrics.
pub fn sys_filter() -> (s: &'static str)
    ensures
        s@ == "$SYS/#"@,
{
    "$SYS/#"
}

/// The client id of a session opened again after new settings.
pub fn reconnect_client_id() -> (s: &'static str)
    ensures
        s@ == "signal-generator"@,
{
    "signal-generator"
}

/// The settings of an MQTT session.
pub struct SessionSettings {
    pub client_id: String,
    pub host: String,
    pub port: u16,
    pub keep_alive_secs: u64,
    pub clean_session: bool,
    /// User name and password, when the broker asks for them.
    pub credentials: Option<(String, String)>,
    /// Whether the session runs over TLS.
    pub tls: bool,
}

/// The session for client `client_id` on the broker of `cfg`: a clean
/// session with a 30 s keep-alive, the credentials when both user name and
/// password are set (either one empty means no authentication), TLS when
/// the settings ask for it.
pub fn session_settings(cfg: &MqttConfig, client_id: &str) -> (s: SessionSettings)
    ensures
        s.client_id@ == client_id@,
        s.host@ == cfg.host@,
        s.port == cfg.port,
        s.keep_alive_secs == KEEP_ALIVE_SECS,
        s.clean_session,
        cfg.username@.len() == 0 || cfg.password@.len() == 0 ==> s.credentials is None,
        cfg.username@.len() > 0 && cfg.password@.len() > 0 ==> (s.credentials matches Some((u, p)) && u@ == cfg.username@ && p@
            == cfg.password@),
        s.tls == cfg.use_tls,
{
    let credentials = if cfg.username.as_str().unicode_len() == 0 || cfg.password.as_str().unicode_len() == 0 {
        None
    } else {
        Some((cfg.username.clone(), cfg.password.clone()))
    };
    SessionSettings {
        client_id: String::from_str(client_id),
        host: cfg.host.clone(),
        port: cfg.port,
        keep_alive_secs: KEEP_ALIVE_SECS,
        clean_session: true,
        credentials,
        tls: cfg.use_tls,
    }
}

/// An event polled from the MQTT event loop.
pub enum LinkEvent {
    /// The broker acknowledged the connection.
    ConnAck,
    /// A message arrived on `topic`.
    Publish(String),
    /// Another incoming packet.
    OtherIncoming,
    /// An outgoing packet was sent.
    Outgoing,
    /// The connection failed.
    Failure,
}

/// What the event loop does after an event.
#[derive(PartialEq, Eq, Structural)]
pub enum LinkAction {
    /// Nothing.
    Idle,
    /// Apply the message to the broker status.
    ApplySys,
    /// Wait this many milliseconds before polling again.
    Pause(u64),
}

/// `topic` is one of the broker's `$SYS` topics.
pub open spec fn is_sys_topic(topic: Seq<char>) -> bool {
    has_prefix(topic, "$SYS/"@)
}

/// The connection flag and action after `event`, the flag being `connected`
/// before it.
pub open spec fn link_step(connected: bool, event: LinkEvent) -> (bool, LinkAction) {
    match event {
        LinkEvent::ConnAck => (true, LinkAction::Idle),
        LinkEvent::Publish(topic) => (
            connected,
            if is_sys_topic(topic@) { LinkAction::ApplySys } else { LinkAction::Idle },
        ),
        LinkEvent::OtherIncoming => (connected, LinkAction::Idle),
        LinkEvent::Outgoing => (connected, LinkAction::Idle),
        LinkEvent::Failure => (false, LinkAction::Pause(ERROR_PAUSE_MS)),
    }
}

/// React to an event of the MQTT event loop: an acknowledged connection sets
/// the connection flag, a failure clears it and pauses the loop, a message
/// on a `$SYS` topic is applied to the broker status, anything else changes
/// nothing.
pub fn on_link_event(connected: bool, event: &LinkEvent) -> (r: (bool, LinkAction))
    ensures
        r == link_step(connected, *event),
{
    match event {
        LinkEvent::ConnAck => (true, LinkAction::Idle),
        LinkEvent::Publish(topic) => {
            if starts_with(topic.as_str(), "$SYS/") {
                (connected, LinkAction::ApplySys)
            } else {
                (connected, LinkAction::Idle)
            }
        },
        LinkEvent::OtherIncoming => (connected, LinkAction::Idle),
        LinkEvent::Outgoing => (connected, LinkAction::Idle),
        LinkEvent::Failure => (false, LinkAction::Pause(ERROR_PAUSE_MS)),
    }
}

/// The connection flag after the events `events`, starting from `connected`.
pub open spec fn link_flag(connected: bool, events: Seq<LinkEvent>) -> bool
    decreases events.len(),
{
    if events.len() == 0 {
        connected
    } else {
        link_step(link_flag(connected, events.drop_last()), events.last()).0
    }
}

/// Some event of `events` from position `i` on is a failure.
pub open spec fn fails_after(events: Seq<LinkEvent>, i: int) -> bool {
    exists|j: int| i <= j < events.len() && #[trigger] events[j] is Failure
}

/// The broker acknowledged the connection at position `i` of `events` and
/// no failure came after it.
pub open spec fn acked_at(events: Seq<LinkEvent>, i: int) -> bool {
    0 <= i < events.len() && events[i] is ConnAck && !fails_after(events, i + 1)
}

/// Over any sequence of polled events, the connection counts as up exactly
/// when the broker acknowledged it and no failure came after the last
/// acknowledgement, or when it was up before and no failure came at all.
/// A session starts down, so after `connect` it is up exactly when some
/// acknowledgement came with no failure after it.
pub proof fn lemma_link_flag(connected: bool, events: Seq<LinkEvent>)
    ensures
        link_flag(connected, events) <==> (exists|i: int| acked_at(events, i)) || (connected && !fails_after(
            events,
            0,
        )),
    decreases events.len(),
{
    if events.len() > 0 {
        let pre = events.drop_last();
        let n = events.len() - 1;
        lemma_link_flag(connected, pre);
        match events.last() {
            LinkEvent::ConnAck => {
                assert(!fails_after(events, n + 1));
                assert(acked_at(events, n));
            },
            LinkEvent::Failure => {
                assert(events[n] is Failure);
                assert forall|i: int| !acked_at(events, i) by {
                    if 0 <= i < n {
                        assert(fails_after(events, i + 1));
                    }
                }
                assert(fails_after(events, 0));
            },
            _ => {
                assert forall|i: int| acked_at(events, i) <==> acked_at(pre, i) by {
                    if 0 <= i < n {
                        if fails_after(events, i + 1) {
                            let j = choose|j: int| i + 1 <= j < events.len() && #[trigger] events[j] is Failure;
                            assert(pre[j] is Failure);
                        }
                        if fails_after(pre, i + 1) {
                            let j = choose|j: int| i + 1 <= j < pre.len() && #[trigger] pre[j] is Failure;
                            assert(events[j] is Failure);
                        }
                    }
                }
                if fails_after(events, 0) {
                    let j = choose|j: int| 0 <= j < events.len() && #[trigger] events[j] is Failure;
                    assert(pre[j] is Failure);
                }
                if fails_after(pre, 0) {
                    let j = choose|j: int| 0 <= j < pre.len() && #[trigger] pre[j] is Failure;
                    assert(events[j] is Failure);
                }
            },
        }
    }
}

/// Whether the broker history is due for a record, `elapsed_ms` after the
/// last one.
pub fn record_due(elapsed_ms: u64) -> (due: bool)
    ensures
        due == (elapsed_ms >= RECORD_INTERVAL_MS),
{
    elapsed_ms >= RECORD_INTERVAL_MS
}

} // verus!
