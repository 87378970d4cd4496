//! Broker metrics: the status assembled from the broker's `$SYS` topics and
//! the bounded history of metric snapshots.
use vstd::prelude::*;
use vstd::string::*;
use crate::clock::{clock_text, utc_clock_time};
use crate::text::{ends_with, has_suffix, parse_unsigned, parse_unsigned_upto};

verus! {

/// The broker metric a `$SYS` topic reports.
#[derive(Debug, Clone, Copy, PartialEq, Eq, Structural)]
pub enum SysField {
    Version,
    Uptime,
    ClientsConnected,
    ClientsMaximum,
    ClientsExpired,
    ClientsDisconnected,
    ClientsTotal,
    Subscriptions,
    Topics,
    MessagesSent,
    MessagesReceived,
    BytesSent,
    BytesReceived,
    HeapCurrent,
    HeapMaximum,
    RetainedCount,
    StoreCount,
    LoadConnections,
    LoadSessions,
    LoadSockets,
}

/// Number of recognized `$SYS` topic endings.
pub const SYS_TOPIC_COUNT: usize = 20;

/// The `i`-th recognized ending of a `$SYS` topic, in the order they are tried.
pub open spec fn sys_suffix(i: int) -> Seq<char> {
    if i == 0 { "/version"@ }
    else if i == 1 { "/uptime"@ }
    else if i == 2 { "/clients/connected"@ }
    else if i == 3 { "/clients/maximum"@ }
    else if i == 4 { "/clients/expired"@ }
    else if i == 5 { "/clients/disconnected"@ }
    else if i == 6 { "/clients/total"@ }
    else if i == 7 { "/subscriptions/count"@ }
    else if i == 8 { "/topics/count"@ }
    else if i == 9 { "/messages/sent"@ }
    else if i == 10 { "/messages/received"@ }
    else if i == 11 { "/bytes/sent"@ }
    else if i == 12 { "/bytes/received"@ }
    else if i == 13 { "/heap/current"@ }
    else if i == 14 { "/heap/maximum"@ }
    else if i == 15 { "/retained messages/count"@ }
    else if i == 16 { "/store/messages/count"@ }
    else if i == 17 { "/load/connections"@ }
    else if i == 18 { "/load/sessions"@ }
    else { "/load/sockets"@ }
}

/// The metric reported by the `i`-th recognized topic ending.
pub open spec fn sys_metric(i: int) -> SysField {
    if i == 0 { SysField::Version }
    else if i == 1 { SysField::Uptime }
    else if i == 2 { SysField::ClientsConnected }
    else if i == 3 { SysField::ClientsMaximum }
    else if i == 4 { SysField::ClientsExpired }
    else if i == 5 { SysField::ClientsDisconnected }
    else if i == 6 { SysField::ClientsTotal }
    else if i == 7 { SysField::Subscriptions }
    else if i == 8 { SysField::Topics }
    else if i == 9 { SysField::MessagesSent }
    else if i == 10 { SysField::MessagesReceived }
    else if i == 11 { SysField::BytesSent }
    else if i == 12 { SysField::BytesReceived }
    else if i == 13 { SysField::HeapCurrent }
    else if i == 14 { SysField::HeapMaximum }
    else if i == 15 { SysField::RetainedCount }
    else if i == 16 { SysField::StoreCount }
    else if i == 17 { SysField::LoadConnections }
    else if i == 18 { SysField::LoadSessions }
    else { SysField::LoadSockets }
}

/// The `i`-th recognized topic ending and its metric.
pub fn sys_entry(i: usize) -> (e: (&'static str, SysField))
    requires
        i < SYS_TOPIC_COUNT,
    ensures
        e.0@ == sys_suffix(i as int),
        e.1 == sys_metric(i as int),
{
    if i == 0 { ("/version", SysField::Version) }
    else if i == 1 { ("/uptime", SysField::Uptime) }
    else if i == 2 { ("/clients/connected", SysField::ClientsConnected) }
    else if i == 3 { ("/clients/maximum", SysField::ClientsMaximum) }
    else if i == 4 { ("/clients/expired", SysField::ClientsExpired) }
    else if i == 5 { ("/clients/disconnected", SysField::ClientsDisconnected) }
    else if i == 6 { ("/clients/total", SysField::ClientsTotal) }
    else if i == 7 { ("/subscriptions/count", SysField::Subscriptions) }
    else if i == 8 { ("/topics/count", SysField::Topics) }
    else if i == 9 { ("/messages/sent", SysField::MessagesSent) }
    else if i == 10 { ("/messages/received", SysField::MessagesReceived) }
    else if i == 11 { ("/bytes/sent", SysField::BytesSent) }
    else if i == 12 { ("/bytes/received", SysField::BytesReceived) }
    else if i == 13 { ("/heap/current", SysField::HeapCurrent) }
    else if i == 14 { ("/heap/maximum", SysField::HeapMaximum) }
    else if i == 15 { ("/retained messages/count", SysField::RetainedCount) }
    else if i == 16 { ("/store/messages/count", SysField::StoreCount) }
    else if i == 17 { ("/load/connections", SysField::LoadConnections) }
    else if i == 18 { ("/load/sessions", SysField::LoadSessions) }
    else { ("/load/sockets", SysField::LoadSockets) }
}

/// The metric of `topic`: that of the first recognized ending, from entry `i` on, it ends with.
pub open spec fn sys_field_from(topic: Seq<char>, i: int) -> Option<SysField>
    decreases SYS_TOPIC_COUNT - i,
{
    if i < 0 || i >= SYS_TOPIC_COUNT {
        None
    } else if has_suffix(topic, sys_suffix(i)) {
        Some(sys_metric(i))
    } else {
        sys_field_from(topic, i + 1)
    }
}

/// The metric a `$SYS` topic reports, if it is a recognized one.
pub open spec fn sys_field(topic: Seq<char>) -> Option<SysField> {
    sys_field_from(topic, 0)
}

/// The metric a `$SYS` topic reports: the first recognized ending it has.
pub fn sys_field_of(topic: &str) -> (f: Option<SysField>)
    ensures
        f == sys_field(topic@),
{
    let mut i: usize = 0;
    while i < SYS_TOPIC_COUNT
        invariant
            i <= SYS_TOPIC_COUNT,
            sys_field(topic@) == sys_field_from(topic@, i as int),
        decreases SYS_TOPIC_COUNT - i,
    {
        let e = sys_entry(i);
        if ends_with(topic, e.0) {
            return Some(e.1);
        }
        i = i + 1;
    }
    None
}

/// The broker status as collected from `$SYS` topics.  `F` is the number
/// type of the load averages.
#[derive(Debug, Clone)]
pub struct BrokerStatus<F> {
    pub version: String,
    pub uptime: u64,
    pub clients_connected: u32,
    pub clients_max: u32,
    pub clients_expired: u32,
    pub clients_disconnected: u32,
    pub clients_total: u32,
    pub subscriptions: u32,
    pub topics: u32,
    pub messages_sent: u64,
    pub messages_received: u64,
    pub bytes_sent: u64,
    pub bytes_received: u64,
    pub heap_used: u64,
    pub heap_max: u64,
    pub retained_count: u32,
    pub store_count: u32,
    pub load_connections: F,
    pub load_sessions: F,
    pub load_sockets: F,
    /// Clock time (`HH:MM:SS`) of the last update.
    pub last_update: String,
}

/// A 64-bit counter after the report `payload`: its value, or `old` when it is not a number.
pub open spec fn counter64(payload: Seq<char>, old: u64) -> u64 {
    match parse_unsigned(payload, u64::MAX as nat) {
        Some(v) => v as u64,
        None => old,
    }
}

/// A 32-bit counter after the report `payload`: its value, or `old` when it is not a number.
pub open spec fn counter32(payload: Seq<char>, old: u32) -> u32 {
    match parse_unsigned(payload, u32::MAX as nat) {
        Some(v) => v as u32,
        None => old,
    }
}

/// A load average after a report whose parsed value is `load` (`None` when
/// the report is not a number): that value, or `old`.
pub open spec fn load_value<F>(load: Option<F>, old: F) -> F {
    match load {
        Some(v) => v,
        None => old,
    }
}

fn report_u64(payload: &str, old: u64) -> (v: u64)
    ensures
        v == counter64(payload@, old),
{
    match parse_unsigned_upto(payload, u64::MAX) {
        Some(v) => v,
        None => old,
    }
}

fn report_u32(payload: &str, old: u32) -> (v: u32)
    ensures
        v == counter32(payload@, old),
{
    match parse_unsigned_upto(payload, u32::MAX as u64) {
        Some(v) => v as u32,
        None => old,
    }
}

/// `s` is `o` after the report `payload` of `$SYS` topic `topic`, whose
/// value read as a number is `load`: the metric the topic reports takes the
/// payload's value (the version as text, counters when the payload is a
/// number of their range, loads when `load` is present) and keeps its value
/// otherwise; every other metric is unchanged.
pub open spec fn reported<F>(o: BrokerStatus<F>, s: BrokerStatus<F>, topic: Seq<char>, payload: Seq<char>, load: Option<F>) -> bool {
    let f = sys_field(topic);
    &&& s.version@ == if f == Some(SysField::Version) { payload } else { o.version@ }
    &&& s.uptime == if f == Some(SysField::Uptime) { counter64(payload, o.uptime) } else { o.uptime }
    &&& s.clients_connected == if f == Some(SysField::ClientsConnected) {
        counter32(payload, o.clients_connected)
    } else {
        o.clients_connected
    }
    &&& s.clients_max == if f == Some(SysField::ClientsMaximum) {
        counter32(payload, o.clients_max)
    } else {
        o.clients_max
    }
    &&& s.clients_expired == if f == Some(SysField::ClientsExpired) {
        counter32(payload, o.clients_expired)
    } else {
        o.clients_expired
    }
    &&& s.clients_disconnected == if f == Some(SysField::ClientsDisconnected) {
        counter32(payload, o.clients_disconnected)
    } else {
        o.clients_disconnected
    }
    &&& s.clients_total == if f == Some(SysField::ClientsTotal) {
        counter32(payload, o.clients_total)
    } else {
        o.clients_total
    }
    &&& s.subscriptions == if f == Some(SysField::Subscriptions) {
        counter32(payload, o.subscriptions)
    } else {
        o.subscriptions
    }
    &&& s.topics == if f == Some(SysField::Topics) { counter32(payload, o.topics) } else { o.topics }
    &&& s.messages_sent == if f == Some(SysField::MessagesSent) {
        counter64(payload, o.messages_sent)
    } else {
        o.messages_sent
    }
    &&& s.messages_received == if f == Some(SysField::MessagesReceived) {
        counter64(payload, o.messages_received)
    } else {
        o.messages_received
    }
    &&& s.bytes_sent == if f == Some(SysField::BytesSent) {
        counter64(payload, o.bytes_sent)
    } else {
        o.bytes_sent
    }
    &&& s.bytes_received == if f == Some(SysField::BytesReceived) {
        counter64(payload, o.bytes_received)
    } else {
        o.bytes_received
    }
    &&& s.heap_used == if f == Some(SysField::HeapCurrent) {
        counter64(payload, o.heap_used)
    } else {
        o.heap_used
    }
    &&& s.heap_max == if f == Some(SysField::HeapMaximum) {
        counter64(payload, o.heap_max)
    } else {
        o.heap_max
    }
    &&& s.retained_count == if f == Some(SysField::RetainedCount) {
        counter32(payload, o.retained_count)
    } else {
        o.retained_count
    }
    &&& s.store_count == if f == Some(SysField::StoreCount) {
        counter32(payload, o.store_count)
    } else {
        o.store_count
    }
    &&& s.load_connections == if f == Some(SysField::LoadConnections) {
        load_value(load, o.load_connections)
    } else {
        o.load_connections
    }
    &&& s.load_sessions == if f == Some(SysField::LoadSessions) {
        load_value(load, o.load_sessions)
    } else {
        o.load_sessions
    }
    &&& s.load_sockets == if f == Some(SysField::LoadSockets) {
        load_value(load, o.load_sockets)
    } else {
        o.load_sockets
    }
}

impl<F: Copy> BrokerStatus<F> {
    /// A status with nothing known yet: version "—", all counters zero, all
    /// loads `zero`, updated at `now`.
    pub fn new_at(zero: F, now: String) -> (s: Self)
        ensures
            s.version@ == "—"@,
            s.uptime == 0 && s.clients_connected == 0 && s.clients_max == 0 && s.clients_expired == 0,
            s.clients_disconnected == 0 && s.clients_total == 0 && s.subscriptions == 0 && s.topics == 0,
            s.messages_sent == 0 && s.messages_received == 0 && s.bytes_sent == 0 && s.bytes_received == 0,
            s.heap_used == 0 && s.heap_max == 0 && s.retained_count == 0 && s.store_count == 0,
            s.load_connections == zero && s.load_sessions == zero && s.load_sockets == zero,
            s.last_update == now,
    {
        BrokerStatus {
            version: String::from_str("—"),
            uptime: 0,
            clients_connected: 0,
            clients_max: 0,
            clients_expired: 0,
            clients_disconnected: 0,
            clients_total: 0,
            subscriptions: 0,
            topics: 0,
            messages_sent: 0,
            messages_received: 0,
            bytes_sent: 0,
            bytes_received: 0,
            heap_used: 0,
            heap_max: 0,
            retained_count: 0,
            store_count: 0,
            load_connections: zero,
            load_sessions: zero,
            load_sockets: zero,
            last_update: now,
        }
    }

    /// A status with nothing known yet, updated now.
    pub fn new(zero: F) -> (s: Self)
        ensures
            s.version@ == "—"@,
            s.uptime == 0 && s.clients_connected == 0 && s.clients_max == 0 && s.clients_expired == 0,
            s.clients_disconnected == 0 && s.clients_total == 0 && s.subscriptions == 0 && s.topics == 0,
            s.messages_sent == 0 && s.messages_received == 0 && s.bytes_sent == 0 && s.bytes_received == 0,
            s.heap_used == 0 && s.heap_max == 0 && s.retained_count == 0 && s.store_count == 0,
            s.load_connections == zero && s.load_sessions == zero && s.load_sockets == zero,
            clock_text(s.last_update@),
    {
        Self::new_at(zero, utc_clock_time())
    }

    /// Apply the report `payload` of `$SYS` topic `topic`, received at `now`.
    /// The metric the topic reports takes the payload's value: the version
    /// as text, counters when the payload is a number of their range, loads
    /// when `load` (the payload read as a number) is present; otherwise it
    /// keeps its value.  Other metrics are untouched; the update time is
    /// always `now`.
    pub fn parse_sys_at(&mut self, topic: &str, payload: &str, load: Option<F>, now: String)
        ensures
            final(self).last_update == now,
            reported(*old(self), *final(self), topic@, payload@, load),
    {
        self.last_update = now;
        match sys_field_of(topic) {
            None => {},
            Some(SysField::Version) => self.version = String::from_str(payload),
            Some(SysField::Uptime) => self.uptime = report_u64(payload, self.uptime),
            Some(SysField::ClientsConnected) => self.clients_connected = report_u32(payload, self.clients_connected),
            Some(SysField::ClientsMaximum) => self.clients_max = report_u32(payload, self.clients_max),
            Some(SysField::ClientsExpired) => self.clients_expired = report_u32(payload, self.clients_expired),
            Some(SysField::ClientsDisconnected) => {
                self.clients_disconnected = report_u32(payload, self.clients_disconnected)
            },
            Some(SysField::ClientsTotal) => self.clients_total = report_u32(payload, self.clients_total),
            Some(SysField::Subscriptions) => self.subscriptions = report_u32(payload, self.subscriptions),
            Some(SysField::Topics) => self.topics = report_u32(payload, self.topics),
            Some(SysField::MessagesSent) => self.messages_sent = report_u64(payload, self.messages_sent),
            Some(SysField::MessagesReceived) => {
                self.messages_received = report_u64(payload, self.messages_received)
            },
            Some(SysField::BytesSent) => self.bytes_sent = report_u64(payload, self.bytes_sent),
            Some(SysField::BytesReceived) => self.bytes_received = report_u64(payload, self.bytes_received),
            Some(SysField::HeapCurrent) => self.heap_used = report_u64(payload, self.heap_used),
            Some(SysField::HeapMaximum) => self.heap_max = report_u64(payload, self.heap_max),
            Some(SysField::RetainedCount) => self.retained_count = report_u32(payload, self.retained_count),
            Some(SysField::StoreCount) => self.store_count = report_u32(payload, self.store_count),
            Some(SysField::LoadConnections) => {
                if let Some(v) = load {
                    self.load_connections = v;
                }
            },
            Some(SysField::LoadSessions) => {
                if let Some(v) = load {
                    self.load_sessions = v;
                }
            },
            Some(SysField::LoadSockets) => {
                if let Some(v) = load {
                    self.load_sockets = v;
                }
            },
        }
    }

    /// Apply the report `payload` of `$SYS` topic `topic`, received now (the
    /// update time is the current clock time).
    pub fn parse_sys(&mut self, topic: &str, payload: &str, load: Option<F>)
        ensures
            reported(*old(self), *final(self), topic@, payload@, load),
            clock_text(final(self).last_update@),
    {
        let now = utc_clock_time();
        self.parse_sys_at(topic, payload, load, now);
    }
}

} // verus!

verus! {

/// The history of broker metric snapshots: the latest `capacity` snapshots,
/// oldest first, and the message and byte totals of the last recording.
pub struct BrokerHistory<S> {
    buffer: Vec<S>,
    capacity: usize,
    last_msg_total: u64,
    last_byte_total: u64,
}

impl<S> BrokerHistory<S> {
    #[verifier::type_invariant]
    spec fn bounded(self) -> bool {
        0 < self.capacity && self.buffer@.len() <= self.capacity
    }

    /// The snapshots held, oldest first.
    pub closed spec fn entries(self) -> Seq<S> {
        self.buffer@
    }

    /// How many snapshots are kept at most.
    pub closed spec fn limit(self) -> nat {
        self.capacity as nat
    }

    /// Messages sent and received as of the last recording.
    pub closed spec fn msg_total(self) -> u64 {
        self.last_msg_total
    }

    /// Bytes sent and received as of the last recording.
    pub closed spec fn byte_total(self) -> u64 {
        self.last_byte_total
    }

    /// An empty history keeping at most `capacity` snapshots.
    pub fn new(capacity: usize) -> (h: Self)
        requires
            capacity > 0,
        ensures
            h.entries() == Seq::<S>::empty(),
            h.limit() == capacity,
            h.msg_total() == 0,
            h.byte_total() == 0,
    {
        BrokerHistory { buffer: Vec::new(), capacity, last_msg_total: 0, last_byte_total: 0 }
    }

    /// Number of snapshots held.
    pub fn len(&self) -> (n: usize)
        ensures
            n == self.entries().len(),
            n <= self.limit(),
            self.limit() > 0,
    {
        proof {
            use_type_invariant(self);
        }
        self.buffer.len()
    }

    /// Most snapshots kept.
    pub fn capacity(&self) -> (n: usize)
        ensures
            n == self.limit(),
    {
        self.capacity
    }

    /// Messages and bytes (sent plus received) as of the last recording.
    pub fn totals(&self) -> (t: (u64, u64))
        ensures
            t.0 == self.msg_total(),
            t.1 == self.byte_total(),
    {
        (self.last_msg_total, self.last_byte_total)
    }

    /// Take the totals of `status` as the new recording point.  Returns how
    /// many messages and bytes (sent plus received) passed since the last
    /// recording.
    pub fn advance<F>(&mut self, status: &BrokerStatus<F>) -> (delta: (u64, u64))
        requires
            status.messages_sent + status.messages_received <= u64::MAX,
            status.bytes_sent + status.bytes_received <= u64::MAX,
            status.messages_sent + status.messages_received >= old(self).msg_total(),
            status.bytes_sent + status.bytes_received >= old(self).byte_total(),
        ensures
            final(self).entries() == old(self).entries(),
            final(self).limit() == old(self).limit(),
            final(self).msg_total() == status.messages_sent + status.messages_received,
            final(self).byte_total() == status.bytes_sent + status.bytes_received,
            delta.0 == final(self).msg_total() - old(self).msg_total(),
            delta.1 == final(self).byte_total() - old(self).byte_total(),
    {
        proof {
            use_type_invariant(&*self);
        }
        let msg_total = status.messages_sent + status.messages_received;
        let byte_total = status.bytes_sent + status.bytes_received;
        let delta = (msg_total - self.last_msg_total, byte_total - self.last_byte_total);
        self.last_msg_total = msg_total;
        self.last_byte_total = byte_total;
        delta
    }

    /// Add the newest snapshot; when the history is full, the oldest one is dropped.
    pub fn push(&mut self, snap: S)
        ensures
            final(self).entries() == if old(self).entries().len() >= old(self).limit() {
                old(self).entries().drop_first().push(snap)
            } else {
                old(self).entries().push(snap)
            },
            final(self).entries().len() <= final(self).limit(),
            final(self).entries().last() == snap,
            final(self).limit() == old(self).limit(),
            final(self).msg_total() == old(self).msg_total(),
            final(self).byte_total() == old(self).byte_total(),
    {
        proof {
            use_type_invariant(&*self);
        }
        let mut buffer: Vec<S> = Vec::new();
        std::mem::swap(&mut buffer, &mut self.buffer);
        if buffer.len() >= self.capacity {
            buffer.remove(0);
        }
        buffer.push(snap);
        self.buffer = buffer;
    }

    /// The newest snapshot, if any.
    pub fn last(&self) -> (s: Option<&S>)
        ensures
            self.entries().len() == 0 ==> s is None,
            self.entries().len() > 0 ==> s == Some(&self.entries().last()),
    {
        if self.buffer.len() == 0 {
            None
        } else {
            Some(&self.buffer[self.buffer.len() - 1])
        }
    }
}

impl<S: Clone> BrokerHistory<S> {
    /// A copy of the snapshots, oldest first.
    pub fn snapshot(&self) -> (v: Vec<S>)
        ensures
            v@.len() == self.entries().len(),
            forall|i: int| 0 <= i < v@.len() ==> cloned::<S>(self.entries()[i], #[trigger] v@[i]),
    {
        self.buffer.clone()
    }
}

} // verus!

verus! {

/// `t` does not end with `a` when `t` ends with `b` and `a`, `b` differ in
/// their `m`-th character from the end.
proof fn lemma_tail_mismatch(t: Seq<char>, a: Seq<char>, b: Seq<char>, m: int)
    requires
        has_suffix(t, b),
        0 <= m < a.len(),
        m < b.len(),
        a[a.len() - 1 - m] != b[b.len() - 1 - m],
    ensures
        !has_suffix(t, a),
{
    if has_suffix(t, a) {
        let n = t.len() as int;
        assert(t.subrange(n - a.len(), n)[a.len() - 1 - m] == t[n - 1 - m]);
        assert(t.subrange(n - b.len(), n)[b.len() - 1 - m] == t[n - 1 - m]);
    }
}

proof fn reveal_sys_suffixes()
    ensures
        sys_suffix(0) == seq!['/', 'v', 'e', 'r', 's', 'i', 'o', 'n'],
        sys_suffix(1) == seq!['/', 'u', 'p', 't', 'i', 'm', 'e'],
        sys_suffix(2) == seq!['/', 'c', 'l', 'i', 'e', 'n', 't', 's', '/', 'c', 'o', 'n', 'n', 'e', 'c', 't', 'e', 'd'],
        sys_suffix(3) == seq!['/', 'c', 'l', 'i', 'e', 'n', 't', 's', '/', 'm', 'a', 'x', 'i', 'm', 'u', 'm'],
        sys_suffix(4) == seq!['/', 'c', 'l', 'i', 'e', 'n', 't', 's', '/', 'e', 'x', 'p', 'i', 'r', 'e', 'd'],
        sys_suffix(5) == seq!['/', 'c', 'l', 'i', 'e', 'n', 't', 's', '/', 'd', 'i', 's', 'c', 'o', 'n', 'n', 'e', 'c', 't', 'e', 'd'],
        sys_suffix(6) == seq!['/', 'c', 'l', 'i', 'e', 'n', 't', 's', '/', 't', 'o', 't', 'a', 'l'],
        sys_suffix(7) == seq!['/', 's', 'u', 'b', 's', 'c', 'r', 'i', 'p', 't', 'i', 'o', 'n', 's', '/', 'c', 'o', 'u', 'n', 't'],
        sys_suffix(8) == seq!['/', 't', 'o', 'p', 'i', 'c', 's', '/', 'c', 'o', 'u', 'n', 't'],
        sys_suffix(9) == seq!['/', 'm', 'e', 's', 's', 'a', 'g', 'e', 's', '/', 's', 'e', 'n', 't'],
        sys_suffix(10) == seq!['/', 'm', 'e', 's', 's', 'a', 'g', 'e', 's', '/', 'r', 'e', 'c', 'e', 'i', 'v', 'e', 'd'],
        sys_suffix(11) == seq!['/', 'b', 'y', 't', 'e', 's', '/', 's', 'e', 'n', 't'],
        sys_suffix(12) == seq!['/', 'b', 'y', 't', 'e', 's', '/', 'r', 'e', 'c', 'e', 'i', 'v', 'e', 'd'],
        sys_suffix(13) == seq!['/', 'h', 'e', 'a', 'p', '/', 'c', 'u', 'r', 'r', 'e', 'n', 't'],
        sys_suffix(14) == seq!['/', 'h', 'e', 'a', 'p', '/', 'm', 'a', 'x', 'i', 'm', 'u', 'm'],
        sys_suffix(15) == seq!['/', 'r', 'e', 't', 'a', 'i', 'n', 'e', 'd', ' ', 'm', 'e', 's', 's', 'a', 'g', 'e', 's', '/', 'c', 'o', 'u', 'n', 't'],
        sys_suffix(16) == seq!['/', 's', 't', 'o', 'r', 'e', '/', 'm', 'e', 's', 's', 'a', 'g', 'e', 's', '/', 'c', 'o', 'u', 'n', 't'],
        sys_suffix(17) == seq!['/', 'l', 'o', 'a', 'd', '/', 'c', 'o', 'n', 'n', 'e', 'c', 't', 'i', 'o', 'n', 's'],
        sys_suffix(18) == seq!['/', 'l', 'o', 'a', 'd', '/', 's', 'e', 's', 's', 'i', 'o', 'n', 's'],
        sys_suffix(19) == seq!['/', 'l', 'o', 'a', 'd', '/', 's', 'o', 'c', 'k', 'e', 't', 's'],
{
    reveal_strlit("/version");
    reveal_strlit("/uptime");
    reveal_strlit("/clients/connected");
    reveal_strlit("/clients/maximum");
    reveal_strlit("/clients/expired");
    reveal_strlit("/clients/disconnected");
    reveal_strlit("/clients/total");
    reveal_strlit("/subscriptions/count");
    reveal_strlit("/topics/count");
    reveal_strlit("/messages/sent");
    reveal_strlit("/messages/received");
    reveal_strlit("/bytes/sent");
    reveal_strlit("/bytes/received");
    reveal_strlit("/heap/current");
    reveal_strlit("/heap/maximum");
    reveal_strlit("/retained messages/count");
    reveal_strlit("/store/messages/count");
    reveal_strlit("/load/connections");
    reveal_strlit("/load/sessions");
    reveal_strlit("/load/sockets");
}

proof fn lemma_sys_topic_0(t: Seq<char>)
    requires
        has_suffix(t, "/version"@),
    ensures
        sys_field(t) == Some(SysField::Version),
{
    reveal_sys_suffixes();
    reveal_with_fuel(sys_field_from, 21);
}

proof fn lemma_sys_topic_1(t: Seq<char>)
    requires
        has_suffix(t, "/uptime"@),
    ensures
        sys_field(t) == Some(SysField::Uptime),
{
    reveal_sys_suffixes();
    lemma_tail_mismatch(t, sys_suffix(0), sys_suffix(1), 0);
    reveal_with_fuel(sys_field_from, 21);
}

proof fn lemma_sys_topic_2(t: Seq<char>)
    requires
        has_suffix(t, "/clients/connected"@),
    ensures
        sys_field(t) == Some(SysField::ClientsConnected),
{
    reveal_sys_suffixes();
    lemma_tail_mismatch(t, sys_suffix(0), sys_suffix(2), 0);
    lemma_tail_mismatch(t, sys_suffix(1), sys_suffix(2), 0);
    reveal_with_fuel(sys_field_from, 21);
}

proof fn lemma_sys_topic_3(t: Seq<char>)
    requires
        has_suffix(t, "/clients/maximum"@),
    ensures
        sys_field(t) == Some(SysField::ClientsMaximum),
{
    reveal_sys_suffixes();
    lemma_tail_mismatch(t, sys_suffix(0), sys_suffix(3), 0);
    lemma_tail_mismatch(t, sys_suffix(1), sys_suffix(3), 0);
    lemma_tail_mismatch(t, sys_suffix(2), sys_suffix(3), 0);
    reveal_with_fuel(sys_field_from, 21);
}

proof fn lemma_sys_topic_4(t: Seq<char>)
    requires
        has_suffix(t, "/clients/expired"@),
    ensures
        sys_field(t) == Some(SysField::ClientsExpired),
{
    reveal_sys_suffixes();
    lemma_tail_mismatch(t, sys_suffix(0), sys_suffix(4), 0);
    lemma_tail_mismatch(t, sys_suffix(1), sys_suffix(4), 0);
    lemma_tail_mismatch(t, sys_suffix(2), sys_suffix(4), 2);
    lemma_tail_mismatch(t, sys_suffix(3), sys_suffix(4), 0);
    reveal_with_fuel(sys_field_from, 21);
}

proof fn lemma_sys_topic_5(t: Seq<char>)
    requires
        has_suffix(t, "/clients/disconnected"@),
    ensures
        sys_field(t) == Some(SysField::ClientsDisconnected),
{
    reveal_sys_suffixes();
    lemma_tail_mismatch(t, sys_suffix(0), sys_suffix(5), 0);
    lemma_tail_mismatch(t, sys_suffix(1), sys_suffix(5), 0);
    lemma_tail_mismatch(t, sys_suffix(2), sys_suffix(5), 9);
    lemma_tail_mismatch(t, sys_suffix(3), sys_suffix(5), 0);
    lemma_tail_mismatch(t, sys_suffix(4), sys_suffix(5), 2);
    reveal_with_fuel(sys_field_from, 21);
}

proof fn lemma_sys_topic_6(t: Seq<char>)
    requires
        has_suffix(t, "/clients/total"@),
    ensures
        sys_field(t) == Some(SysField::ClientsTotal),
{
    reveal_sys_suffixes();
    lemma_tail_mismatch(t, sys_suffix(0), sys_suffix(6), 0);
    lemma_tail_mismatch(t, sys_suffix(1), sys_suffix(6), 0);
    lemma_tail_mismatch(t, sys_suffix(2), sys_suffix(6), 0);
    lemma_tail_mismatch(t, sys_suffix(3), sys_suffix(6), 0);
    lemma_tail_mismatch(t, sys_suffix(4), sys_suffix(6), 0);
    lemma_tail_mismatch(t, sys_suffix(5), sys_suffix(6), 0);
    reveal_with_fuel(sys_field_from, 21);
}

proof fn lemma_sys_topic_7(t: Seq<char>)
    requires
        has_suffix(t, "/subscriptions/count"@),
    ensures
        sys_field(t) == Some(SysField::Subscriptions),
{
    reveal_sys_suffixes();
    lemma_tail_mismatch(t, sys_suffix(0), sys_suffix(7), 0);
    lemma_tail_mismatch(t, sys_suffix(1), sys_suffix(7), 0);
    lemma_tail_mismatch(t, sys_suffix(2), sys_suffix(7), 0);
    lemma_tail_mismatch(t, sys_suffix(3), sys_suffix(7), 0);
    lemma_tail_mismatch(t, sys_suffix(4), sys_suffix(7), 0);
    lemma_tail_mismatch(t, sys_suffix(5), sys_suffix(7), 0);
    lemma_tail_mismatch(t, sys_suffix(6), sys_suffix(7), 0);
    reveal_with_fuel(sys_field_from, 21);
}

proof fn lemma_sys_topic_8(t: Seq<char>)
    requires
        has_suffix(t, "/topics/count"@),
    ensures
        sys_field(t) == Some(SysField::Topics),
{
    reveal_sys_suffixes();
    lemma_tail_mismatch(t, sys_suffix(0), sys_suffix(8), 0);
    lemma_tail_mismatch(t, sys_suffix(1), sys_suffix(8), 0);
    lemma_tail_mismatch(t, sys_suffix(2), sys_suffix(8), 0);
    lemma_tail_mismatch(t, sys_suffix(3), sys_suffix(8), 0);
    lemma_tail_mismatch(t, sys_suffix(4), sys_suffix(8), 0);
    lemma_tail_mismatch(t, sys_suffix(5), sys_suffix(8), 0);
    lemma_tail_mismatch(t, sys_suffix(6), sys_suffix(8), 0);
    lemma_tail_mismatch(t, sys_suffix(7), sys_suffix(8), 7);
    reveal_with_fuel(sys_field_from, 21);
}

proof fn lemma_sys_topic_9(t: Seq<char>)
    requires
        has_suffix(t, "/messages/sent"@),
    ensures
        sys_field(t) == Some(SysField::MessagesSent),
{
    reveal_sys_suffixes();
    lemma_tail_mismatch(t, sys_suffix(0), sys_suffix(9), 0);
    lemma_tail_mismatch(t, sys_suffix(1), sys_suffix(9), 0);
    lemma_tail_mismatch(t, sys_suffix(2), sys_suffix(9), 0);
    lemma_tail_mismatch(t, sys_suffix(3), sys_suffix(9), 0);
    lemma_tail_mismatch(t, sys_suffix(4), sys_suffix(9), 0);
    lemma_tail_mismatch(t, sys_suffix(5), sys_suffix(9), 0);
    lemma_tail_mismatch(t, sys_suffix(6), sys_suffix(9), 0);
    lemma_tail_mismatch(t, sys_suffix(7), sys_suffix(9), 2);
    lemma_tail_mismatch(t, sys_suffix(8), sys_suffix(9), 2);
    reveal_with_fuel(sys_field_from, 21);
}

proof fn lemma_sys_topic_10(t: Seq<char>)
    requires
        has_suffix(t, "/messages/received"@),
    ensures
        sys_field(t) == Some(SysField::MessagesReceived),
{
    reveal_sys_suffixes();
    lemma_tail_mismatch(t, sys_suffix(0), sys_suffix(10), 0);
    lemma_tail_mismatch(t, sys_suffix(1), sys_suffix(10), 0);
    lemma_tail_mismatch(t, sys_suffix(2), sys_suffix(10), 2);
    lemma_tail_mismatch(t, sys_suffix(3), sys_suffix(10), 0);
    lemma_tail_mismatch(t, sys_suffix(4), sys_suffix(10), 2);
    lemma_tail_mismatch(t, sys_suffix(5), sys_suffix(10), 2);
    lemma_tail_mismatch(t, sys_suffix(6), sys_suffix(10), 0);
    lemma_tail_mismatch(t, sys_suffix(7), sys_suffix(10), 0);
    lemma_tail_mismatch(t, sys_suffix(8), sys_suffix(10), 0);
    lemma_tail_mismatch(t, sys_suffix(9), sys_suffix(10), 0);
    reveal_with_fuel(sys_field_from, 21);
}

proof fn lemma_sys_topic_11(t: Seq<char>)
    requires
        has_suffix(t, "/bytes/sent"@),
    ensures
        sys_field(t) == Some(SysField::BytesSent),
{
    reveal_sys_suffixes();
    lemma_tail_mismatch(t, sys_suffix(0), sys_suffix(11), 0);
    lemma_tail_mismatch(t, sys_suffix(1), sys_suffix(11), 0);
    lemma_tail_mismatch(t, sys_suffix(2), sys_suffix(11), 0);
    lemma_tail_mismatch(t, sys_suffix(3), sys_suffix(11), 0);
    lemma_tail_mismatch(t, sys_suffix(4), sys_suffix(11), 0);
    lemma_tail_mismatch(t, sys_suffix(5), sys_suffix(11), 0);
    lemma_tail_mismatch(t, sys_suffix(6), sys_suffix(11), 0);
    lemma_tail_mismatch(t, sys_suffix(7), sys_suffix(11), 2);
    lemma_tail_mismatch(t, sys_suffix(8), sys_suffix(11), 2);
    lemma_tail_mismatch(t, sys_suffix(9), sys_suffix(11), 7);
    lemma_tail_mismatch(t, sys_suffix(10), sys_suffix(11), 0);
    reveal_with_fuel(sys_field_from, 21);
}

proof fn lemma_sys_topic_12(t: Seq<char>)
    requires
        has_suffix(t, "/bytes/received"@),
    ensures
        sys_field(t) == Some(SysField::BytesReceived),
{
    reveal_sys_suffixes();
    lemma_tail_mismatch(t, sys_suffix(0), sys_suffix(12), 0);
    lemma_tail_mismatch(t, sys_suffix(1), sys_suffix(12), 0);
    lemma_tail_mismatch(t, sys_suffix(2), sys_suffix(12), 2);
    lemma_tail_mismatch(t, sys_suffix(3), sys_suffix(12), 0);
    lemma_tail_mismatch(t, sys_suffix(4), sys_suffix(12), 2);
    lemma_tail_mismatch(t, sys_suffix(5), sys_suffix(12), 2);
    lemma_tail_mismatch(t, sys_suffix(6), sys_suffix(12), 0);
    lemma_tail_mismatch(t, sys_suffix(7), sys_suffix(12), 0);
    lemma_tail_mismatch(t, sys_suffix(8), sys_suffix(12), 0);
    lemma_tail_mismatch(t, sys_suffix(9), sys_suffix(12), 0);
    lemma_tail_mismatch(t, sys_suffix(10), sys_suffix(12), 11);
    lemma_tail_mismatch(t, sys_suffix(11), sys_suffix(12), 0);
    reveal_with_fuel(sys_field_from, 21);
}

proof fn lemma_sys_topic_13(t: Seq<char>)
    requires
        has_suffix(t, "/heap/current"@),
    ensures
        sys_field(t) == Some(SysField::HeapCurrent),
{
    reveal_sys_suffixes();
    lemma_tail_mismatch(t, sys_suffix(0), sys_suffix(13), 0);
    lemma_tail_mismatch(t, sys_suffix(1), sys_suffix(13), 0);
    lemma_tail_mismatch(t, sys_suffix(2), sys_suffix(13), 0);
    lemma_tail_mismatch(t, sys_suffix(3), sys_suffix(13), 0);
    lemma_tail_mismatch(t, sys_suffix(4), sys_suffix(13), 0);
    lemma_tail_mismatch(t, sys_suffix(5), sys_suffix(13), 0);
    lemma_tail_mismatch(t, sys_suffix(6), sys_suffix(13), 0);
    lemma_tail_mismatch(t, sys_suffix(7), sys_suffix(13), 2);
    lemma_tail_mismatch(t, sys_suffix(8), sys_suffix(13), 2);
    lemma_tail_mismatch(t, sys_suffix(9), sys_suffix(13), 3);
    lemma_tail_mismatch(t, sys_suffix(10), sys_suffix(13), 0);
    lemma_tail_mismatch(t, sys_suffix(11), sys_suffix(13), 3);
    lemma_tail_mismatch(t, sys_suffix(12), sys_suffix(13), 0);
    reveal_with_fuel(sys_field_from, 21);
}

proof fn lemma_sys_topic_14(t: Seq<char>)
    requires
        has_suffix(t, "/heap/maximum"@),
    ensures
        sys_field(t) == Some(SysField::HeapMaximum),
{
    reveal_sys_suffixes();
    lemma_tail_mismatch(t, sys_suffix(0), sys_suffix(14), 0);
    lemma_tail_mismatch(t, sys_suffix(1), sys_suffix(14), 0);
    lemma_tail_mismatch(t, sys_suffix(2), sys_suffix(14), 0);
    lemma_tail_mismatch(t, sys_suffix(3), sys_suffix(14), 8);
    lemma_tail_mismatch(t, sys_suffix(4), sys_suffix(14), 0);
    lemma_tail_mismatch(t, sys_suffix(5), sys_suffix(14), 0);
    lemma_tail_mismatch(t, sys_suffix(6), sys_suffix(14), 0);
    lemma_tail_mismatch(t, sys_suffix(7), sys_suffix(14), 0);
    lemma_tail_mismatch(t, sys_suffix(8), sys_suffix(14), 0);
    lemma_tail_mismatch(t, sys_suffix(9), sys_suffix(14), 0);
    lemma_tail_mismatch(t, sys_suffix(10), sys_suffix(14), 0);
    lemma_tail_mismatch(t, sys_suffix(11), sys_suffix(14), 0);
    lemma_tail_mismatch(t, sys_suffix(12), sys_suffix(14), 0);
    lemma_tail_mismatch(t, sys_suffix(13), sys_suffix(14), 0);
    reveal_with_fuel(sys_field_from, 21);
}

proof fn lemma_sys_topic_15(t: Seq<char>)
    requires
        has_suffix(t, "/retained messages/count"@),
    ensures
        sys_field(t) == Some(SysField::RetainedCount),
{
    reveal_sys_suffixes();
    lemma_tail_mismatch(t, sys_suffix(0), sys_suffix(15), 0);
    lemma_tail_mismatch(t, sys_suffix(1), sys_suffix(15), 0);
    lemma_tail_mismatch(t, sys_suffix(2), sys_suffix(15), 0);
    lemma_tail_mismatch(t, sys_suffix(3), sys_suffix(15), 0);
    lemma_tail_mismatch(t, sys_suffix(4), sys_suffix(15), 0);
    lemma_tail_mismatch(t, sys_suffix(5), sys_suffix(15), 0);
    lemma_tail_mismatch(t, sys_suffix(6), sys_suffix(15), 0);
    lemma_tail_mismatch(t, sys_suffix(7), sys_suffix(15), 7);
    lemma_tail_mismatch(t, sys_suffix(8), sys_suffix(15), 7);
    lemma_tail_mismatch(t, sys_suffix(9), sys_suffix(15), 2);
    lemma_tail_mismatch(t, sys_suffix(10), sys_suffix(15), 0);
    lemma_tail_mismatch(t, sys_suffix(11), sys_suffix(15), 2);
    lemma_tail_mismatch(t, sys_suffix(12), sys_suffix(15), 0);
    lemma_tail_mismatch(t, sys_suffix(13), sys_suffix(15), 2);
    lemma_tail_mismatch(t, sys_suffix(14), sys_suffix(15), 0);
    reveal_with_fuel(sys_field_from, 21);
}

proof fn lemma_sys_topic_16(t: Seq<char>)
    requires
        has_suffix(t, "/store/messages/count"@),
    ensures
        sys_field(t) == Some(SysField::StoreCount),
{
    reveal_sys_suffixes();
    lemma_tail_mismatch(t, sys_suffix(0), sys_suffix(16), 0);
    lemma_tail_mismatch(t, sys_suffix(1), sys_suffix(16), 0);
    lemma_tail_mismatch(t, sys_suffix(2), sys_suffix(16), 0);
    lemma_tail_mismatch(t, sys_suffix(3), sys_suffix(16), 0);
    lemma_tail_mismatch(t, sys_suffix(4), sys_suffix(16), 0);
    lemma_tail_mismatch(t, sys_suffix(5), sys_suffix(16), 0);
    lemma_tail_mismatch(t, sys_suffix(6), sys_suffix(16), 0);
    lemma_tail_mismatch(t, sys_suffix(7), sys_suffix(16), 7);
    lemma_tail_mismatch(t, sys_suffix(8), sys_suffix(16), 7);
    lemma_tail_mismatch(t, sys_suffix(9), sys_suffix(16), 2);
    lemma_tail_mismatch(t, sys_suffix(10), sys_suffix(16), 0);
    lemma_tail_mismatch(t, sys_suffix(11), sys_suffix(16), 2);
    lemma_tail_mismatch(t, sys_suffix(12), sys_suffix(16), 0);
    lemma_tail_mismatch(t, sys_suffix(13), sys_suffix(16), 2);
    lemma_tail_mismatch(t, sys_suffix(14), sys_suffix(16), 0);
    lemma_tail_mismatch(t, sys_suffix(15), sys_suffix(16), 14);
    reveal_with_fuel(sys_field_from, 21);
}

proof fn lemma_sys_topic_17(t: Seq<char>)
    requires
        has_suffix(t, "/load/connections"@),
    ensures
        sys_field(t) == Some(SysField::LoadConnections),
{
    reveal_sys_suffixes();
    lemma_tail_mismatch(t, sys_suffix(0), sys_suffix(17), 0);
    lemma_tail_mismatch(t, sys_suffix(1), sys_suffix(17), 0);
    lemma_tail_mismatch(t, sys_suffix(2), sys_suffix(17), 0);
    lemma_tail_mismatch(t, sys_suffix(3), sys_suffix(17), 0);
    lemma_tail_mismatch(t, sys_suffix(4), sys_suffix(17), 0);
    lemma_tail_mismatch(t, sys_suffix(5), sys_suffix(17), 0);
    lemma_tail_mismatch(t, sys_suffix(6), sys_suffix(17), 0);
    lemma_tail_mismatch(t, sys_suffix(7), sys_suffix(17), 0);
    lemma_tail_mismatch(t, sys_suffix(8), sys_suffix(17), 0);
    lemma_tail_mismatch(t, sys_suffix(9), sys_suffix(17), 0);
    lemma_tail_mismatch(t, sys_suffix(10), sys_suffix(17), 0);
    lemma_tail_mismatch(t, sys_suffix(11), sys_suffix(17), 0);
    lemma_tail_mismatch(t, sys_suffix(12), sys_suffix(17), 0);
    lemma_tail_mismatch(t, sys_suffix(13), sys_suffix(17), 0);
    lemma_tail_mismatch(t, sys_suffix(14), sys_suffix(17), 0);
    lemma_tail_mismatch(t, sys_suffix(15), sys_suffix(17), 0);
    lemma_tail_mismatch(t, sys_suffix(16), sys_suffix(17), 0);
    reveal_with_fuel(sys_field_from, 21);
}

proof fn lemma_sys_topic_18(t: Seq<char>)
    requires
        has_suffix(t, "/load/sessions"@),
    ensures
        sys_field(t) == Some(SysField::LoadSessions),
{
    reveal_sys_suffixes();
    lemma_tail_mismatch(t, sys_suffix(0), sys_suffix(18), 0);
    lemma_tail_mismatch(t, sys_suffix(1), sys_suffix(18), 0);
    lemma_tail_mismatch(t, sys_suffix(2), sys_suffix(18), 0);
    lemma_tail_mismatch(t, sys_suffix(3), sys_suffix(18), 0);
    lemma_tail_mismatch(t, sys_suffix(4), sys_suffix(18), 0);
    lemma_tail_mismatch(t, sys_suffix(5), sys_suffix(18), 0);
    lemma_tail_mismatch(t, sys_suffix(6), sys_suffix(18), 0);
    lemma_tail_mismatch(t, sys_suffix(7), sys_suffix(18), 0);
    lemma_tail_mismatch(t, sys_suffix(8), sys_suffix(18), 0);
    lemma_tail_mismatch(t, sys_suffix(9), sys_suffix(18), 0);
    lemma_tail_mismatch(t, sys_suffix(10), sys_suffix(18), 0);
    lemma_tail_mismatch(t, sys_suffix(11), sys_suffix(18), 0);
    lemma_tail_mismatch(t, sys_suffix(12), sys_suffix(18), 0);
    lemma_tail_mismatch(t, sys_suffix(13), sys_suffix(18), 0);
    lemma_tail_mismatch(t, sys_suffix(14), sys_suffix(18), 0);
    lemma_tail_mismatch(t, sys_suffix(15), sys_suffix(18), 0);
    lemma_tail_mismatch(t, sys_suffix(16), sys_suffix(18), 0);
    lemma_tail_mismatch(t, sys_suffix(17), sys_suffix(18), 4);
    reveal_with_fuel(sys_field_from, 21);
}

proof fn lemma_sys_topic_19(t: Seq<char>)
    requires
        has_suffix(t, "/load/sockets"@),
    ensures
        sys_field(t) == Some(SysField::LoadSockets),
{
    reveal_sys_suffixes();
    lemma_tail_mismatch(t, sys_suffix(0), sys_suffix(19), 0);
    lemma_tail_mismatch(t, sys_suffix(1), sys_suffix(19), 0);
    lemma_tail_mismatch(t, sys_suffix(2), sys_suffix(19), 0);
    lemma_tail_mismatch(t, sys_suffix(3), sys_suffix(19), 0);
    lemma_tail_mismatch(t, sys_suffix(4), sys_suffix(19), 0);
    lemma_tail_mismatch(t, sys_suffix(5), sys_suffix(19), 0);
    lemma_tail_mismatch(t, sys_suffix(6), sys_suffix(19), 0);
    lemma_tail_mismatch(t, sys_suffix(7), sys_suffix(19), 0);
    lemma_tail_mismatch(t, sys_suffix(8), sys_suffix(19), 0);
    lemma_tail_mismatch(t, sys_suffix(9), sys_suffix(19), 0);
    lemma_tail_mismatch(t, sys_suffix(10), sys_suffix(19), 0);
    lemma_tail_mismatch(t, sys_suffix(11), sys_suffix(19), 0);
    lemma_tail_mismatch(t, sys_suffix(12), sys_suffix(19), 0);
    lemma_tail_mismatch(t, sys_suffix(13), sys_suffix(19), 0);
    lemma_tail_mismatch(t, sys_suffix(14), sys_suffix(19), 0);
    lemma_tail_mismatch(t, sys_suffix(15), sys_suffix(19), 0);
    lemma_tail_mismatch(t, sys_suffix(16), sys_suffix(19), 0);
    lemma_tail_mismatch(t, sys_suffix(17), sys_suffix(19), 1);
    lemma_tail_mismatch(t, sys_suffix(18), sys_suffix(19), 1);
    reveal_with_fuel(sys_field_from, 21);
}

/// Which metric a `$SYS` report updates, by the ending of its topic: every
/// recognized ending names its own metric (for example a topic ending in
/// `/bytes/sent` updates the bytes sent, one ending in `/bytes/received` the
/// bytes received).
pub proof fn lemma_sys_topic_metrics(t: Seq<char>)
    ensures
        has_suffix(t, "/version"@) ==> sys_field(t) == Some(SysField::Version),
        has_suffix(t, "/uptime"@) ==> sys_field(t) == Some(SysField::Uptime),
        has_suffix(t, "/clients/connected"@) ==> sys_field(t) == Some(SysField::ClientsConnected),
        has_suffix(t, "/clients/maximum"@) ==> sys_field(t) == Some(SysField::ClientsMaximum),
        has_suffix(t, "/clients/expired"@) ==> sys_field(t) == Some(SysField::ClientsExpired),
        has_suffix(t, "/clients/disconnected"@) ==> sys_field(t) == Some(SysField::ClientsDisconnected),
        has_suffix(t, "/clients/total"@) ==> sys_field(t) == Some(SysField::ClientsTotal),
        has_suffix(t, "/subscriptions/count"@) ==> sys_field(t) == Some(SysField::Subscriptions),
        has_suffix(t, "/topics/count"@) ==> sys_field(t) == Some(SysField::Topics),
        has_suffix(t, "/messages/sent"@) ==> sys_field(t) == Some(SysField::MessagesSent),
        has_suffix(t, "/messages/received"@) ==> sys_field(t) == Some(SysField::MessagesReceived),
        has_suffix(t, "/bytes/sent"@) ==> sys_field(t) == Some(SysField::BytesSent),
        has_suffix(t, "/bytes/received"@) ==> sys_field(t) == Some(SysField::BytesReceived),
        has_suffix(t, "/heap/current"@) ==> sys_field(t) == Some(SysField::HeapCurrent),
        has_suffix(t, "/heap/maximum"@) ==> sys_field(t) == Some(SysField::HeapMaximum),
        has_suffix(t, "/retained messages/count"@) ==> sys_field(t) == Some(SysField::RetainedCount),
        has_suffix(t, "/store/messages/count"@) ==> sys_field(t) == Some(SysField::StoreCount),
        has_suffix(t, "/load/connections"@) ==> sys_field(t) == Some(SysField::LoadConnections),
        has_suffix(t, "/load/sessions"@) ==> sys_field(t) == Some(SysField::LoadSessions),
        has_suffix(t, "/load/sockets"@) ==> sys_field(t) == Some(SysField::LoadSockets),
{
    if has_suffix(t, "/version"@) {
        lemma_sys_topic_0(t);
    }
    if has_suffix(t, "/uptime"@) {
        lemma_sys_topic_1(t);
    }
    if has_suffix(t, "/clients/connected"@) {
        lemma_sys_topic_2(t);
    }
    if has_suffix(t, "/clients/maximum"@) {
        lemma_sys_topic_3(t);
    }
    if has_suffix(t, "/clients/expired"@) {
        lemma_sys_topic_4(t);
    }
    if has_suffix(t, "/clients/disconnected"@) {
        lemma_sys_topic_5(t);
    }
    if has_suffix(t, "/clients/total"@) {
        lemma_sys_topic_6(t);
    }
    if has_suffix(t, "/subscriptions/count"@) {
        lemma_sys_topic_7(t);
    }
    if has_suffix(t, "/topics/count"@) {
        lemma_sys_topic_8(t);
    }
    if has_suffix(t, "/messages/sent"@) {
        lemma_sys_topic_9(t);
    }
    if has_suffix(t, "/messages/received"@) {
        lemma_sys_topic_10(t);
    }
    if has_suffix(t, "/bytes/sent"@) {
        lemma_sys_topic_11(t);
    }
    if has_suffix(t, "/bytes/received"@) {
        lemma_sys_topic_12(t);
    }
    if has_suffix(t, "/heap/current"@) {
        lemma_sys_topic_13(t);
    }
    if has_suffix(t, "/heap/maximum"@) {
        lemma_sys_topic_14(t);
    }
    if has_suffix(t, "/retained messages/count"@) {
        lemma_sys_topic_15(t);
    }
    if has_suffix(t, "/store/messages/count"@) {
        lemma_sys_topic_16(t);
    }
    if has_suffix(t, "/load/connections"@) {
        lemma_sys_topic_17(t);
    }
    if has_suffix(t, "/load/sessions"@) {
        lemma_sys_topic_18(t);
    }
    if has_suffix(t, "/load/sockets"@) {
        lemma_sys_topic_19(t);
    }
}

} // verus!

verus! {

/// What a `$SYS` report does to the status, by the ending of its topic: the
/// metric the ending names takes the reported value (the version as text, a
/// counter when the payload is a number of its range, a load when it was
/// read as a number) and every other metric keeps its value.  For example a
/// report on a topic ending in `/bytes/sent` sets the bytes sent and leaves
/// the bytes received as they were.
pub proof fn lemma_sys_report_fields<F>(
    o: BrokerStatus<F>,
    s: BrokerStatus<F>,
    topic: Seq<char>,
    payload: Seq<char>,
    load: Option<F>,
)
    requires
        reported(o, s, topic, payload, load),
    ensures
        has_suffix(topic, "/version"@) ==> s.version@ == payload && s.uptime == o.uptime && s.clients_connected == o.clients_connected && s.clients_max == o.clients_max && s.clients_expired == o.clients_expired && s.clients_disconnected == o.clients_disconnected && s.clients_total == o.clients_total && s.subscriptions == o.subscriptions && s.topics == o.topics && s.messages_sent == o.messages_sent && s.messages_received == o.messages_received && s.bytes_sent == o.bytes_sent && s.bytes_received == o.bytes_received && s.heap_used == o.heap_used && s.heap_max == o.heap_max && s.retained_count == o.retained_count && s.store_count == o.store_count && s.load_connections == o.load_connections && s.load_sessions == o.load_sessions && s.load_sockets == o.load_sockets,
        has_suffix(topic, "/uptime"@) ==> s.uptime == counter64(payload, o.uptime) && s.version@ == o.version@ && s.clients_connected == o.clients_connected && s.clients_max == o.clients_max && s.clients_expired == o.clients_expired && s.clients_disconnected == o.clients_disconnected && s.clients_total == o.clients_total && s.subscriptions == o.subscriptions && s.topics == o.topics && s.messages_sent == o.messages_sent && s.messages_received == o.messages_received && s.bytes_sent == o.bytes_sent && s.bytes_received == o.bytes_received && s.heap_used == o.heap_used && s.heap_max == o.heap_max && s.retained_count == o.retained_count && s.store_count == o.store_count && s.load_connections == o.load_connections && s.load_sessions == o.load_sessions && s.load_sockets == o.load_sockets,
        has_suffix(topic, "/clients/connected"@) ==> s.clients_connected == counter32(payload, o.clients_connected) && s.version@ == o.version@ && s.uptime == o.uptime && s.clients_max == o.clients_max && s.clients_expired == o.clients_expired && s.clients_disconnected == o.clients_disconnected && s.clients_total == o.clients_total && s.subscriptions == o.subscriptions && s.topics == o.topics && s.messages_sent == o.messages_sent && s.messages_received == o.messages_received && s.bytes_sent == o.bytes_sent && s.bytes_received == o.bytes_received && s.heap_used == o.heap_used && s.heap_max == o.heap_max && s.retained_count == o.retained_count && s.store_count == o.store_count && s.load_connections == o.load_connections && s.load_sessions == o.load_sessions && s.load_sockets == o.load_sockets,
        has_suffix(topic, "/clients/maximum"@) ==> s.clients_max == counter32(payload, o.clients_max) && s.version@ == o.version@ && s.uptime == o.uptime && s.clients_connected == o.clients_connected && s.clients_expired == o.clients_expired && s.clients_disconnected == o.clients_disconnected && s.clients_total == o.clients_total && s.subscriptions == o.subscriptions && s.topics == o.topics && s.messages_sent == o.messages_sent && s.messages_received == o.messages_received && s.bytes_sent == o.bytes_sent && s.bytes_received == o.bytes_received && s.heap_used == o.heap_used && s.heap_max == o.heap_max && s.retained_count == o.retained_count && s.store_count == o.store_count && s.load_connections == o.load_connections && s.load_sessions == o.load_sessions && s.load_sockets == o.load_sockets,
        has_suffix(topic, "/clients/expired"@) ==> s.clients_expired == counter32(payload, o.clients_expired) && s.version@ == o.version@ && s.uptime == o.uptime && s.clients_connected == o.clients_connected && s.clients_max == o.clients_max && s.clients_disconnected == o.clients_disconnected && s.clients_total == o.clients_total && s.subscriptions == o.subscriptions && s.topics == o.topics && s.messages_sent == o.messages_sent && s.messages_received == o.messages_received && s.bytes_sent == o.bytes_sent && s.bytes_received == o.bytes_received && s.heap_used == o.heap_used && s.heap_max == o.heap_max && s.retained_count == o.retained_count && s.store_count == o.store_count && s.load_connections == o.load_connections && s.load_sessions == o.load_sessions && s.load_sockets == o.load_sockets,
        has_suffix(topic, "/clients/disconnected"@) ==> s.clients_disconnected == counter32(payload, o.clients_disconnected) && s.version@ == o.version@ && s.uptime == o.uptime && s.clients_connected == o.clients_connected && s.clients_max == o.clients_max && s.clients_expired == o.clients_expired && s.clients_total == o.clients_total && s.subscriptions == o.subscriptions && s.topics == o.topics && s.messages_sent == o.messages_sent && s.messages_received == o.messages_received && s.bytes_sent == o.bytes_sent && s.bytes_received == o.bytes_received && s.heap_used == o.heap_used && s.heap_max == o.heap_max && s.retained_count == o.retained_count && s.store_count == o.store_count && s.load_connections == o.load_connections && s.load_sessions == o.load_sessions && s.load_sockets == o.load_sockets,
        has_suffix(topic, "/clients/total"@) ==> s.clients_total == counter32(payload, o.clients_total) && s.version@ == o.version@ && s.uptime == o.uptime && s.clients_connected == o.clients_connected && s.clients_max == o.clients_max && s.clients_expired == o.clients_expired && s.clients_disconnected == o.clients_disconnected && s.subscriptions == o.subscriptions && s.topics == o.topics && s.messages_sent == o.messages_sent && s.messages_received == o.messages_received && s.bytes_sent == o.bytes_sent && s.bytes_received == o.bytes_received && s.heap_used == o.heap_used && s.heap_max == o.heap_max && s.retained_count == o.retained_count && s.store_count == o.store_count && s.load_connections == o.load_connections && s.load_sessions == o.load_sessions && s.load_sockets == o.load_sockets,
        has_suffix(topic, "/subscriptions/count"@) ==> s.subscriptions == counter32(payload, o.subscriptions) && s.version@ == o.version@ && s.uptime == o.uptime && s.clients_connected == o.clients_connected && s.clients_max == o.clients_max && s.clients_expired == o.clients_expired && s.clients_disconnected == o.clients_disconnected && s.clients_total == o.clients_total && s.topics == o.topics && s.messages_sent == o.messages_sent && s.messages_received == o.messages_received && s.bytes_sent == o.bytes_sent && s.bytes_received == o.bytes_received && s.heap_used == o.heap_used && s.heap_max == o.heap_max && s.retained_count == o.retained_count && s.store_count == o.store_count && s.load_connections == o.load_connections && s.load_sessions == o.load_sessions && s.load_sockets == o.load_sockets,
        has_suffix(topic, "/topics/count"@) ==> s.topics == counter32(payload, o.topics) && s.version@ == o.version@ && s.uptime == o.uptime && s.clients_connected == o.clients_connected && s.clients_max == o.clients_max && s.clients_expired == o.clients_expired && s.clients_disconnected == o.clients_disconnected && s.clients_total == o.clients_total && s.subscriptions == o.subscriptions && s.messages_sent == o.messages_sent && s.messages_received == o.messages_received && s.bytes_sent == o.bytes_sent && s.bytes_received == o.bytes_received && s.heap_used == o.heap_used && s.heap_max == o.heap_max && s.retained_count == o.retained_count && s.store_count == o.store_count && s.load_connections == o.load_connections && s.load_sessions == o.load_sessions && s.load_sockets == o.load_sockets,
        has_suffix(topic, "/messages/sent"@) ==> s.messages_sent == counter64(payload, o.messages_sent) && s.version@ == o.version@ && s.uptime == o.uptime && s.clients_connected == o.clients_connected && s.clients_max == o.clients_max && s.clients_expired == o.clients_expired && s.clients_disconnected == o.clients_disconnected && s.clients_total == o.clients_total && s.subscriptions == o.subscriptions && s.topics == o.topics && s.messages_received == o.messages_received && s.bytes_sent == o.bytes_sent && s.bytes_received == o.bytes_received && s.heap_used == o.heap_used && s.heap_max == o.heap_max && s.retained_count == o.retained_count && s.store_count == o.store_count && s.load_connections == o.load_connections && s.load_sessions == o.load_sessions && s.load_sockets == o.load_sockets,
        has_suffix(topic, "/messages/received"@) ==> s.messages_received == counter64(payload, o.messages_received) && s.version@ == o.version@ && s.uptime == o.uptime && s.clients_connected == o.clients_connected && s.clients_max == o.clients_max && s.clients_expired == o.clients_expired && s.clients_disconnected == o.clients_disconnected && s.clients_total == o.clients_total && s.subscriptions == o.subscriptions && s.topics == o.topics && s.messages_sent == o.messages_sent && s.bytes_sent == o.bytes_sent && s.bytes_received == o.bytes_received && s.heap_used == o.heap_used && s.heap_max == o.heap_max && s.retained_count == o.retained_count && s.store_count == o.store_count && s.load_connections == o.load_connections && s.load_sessions == o.load_sessions && s.load_sockets == o.load_sockets,
        has_suffix(topic, "/bytes/sent"@) ==> s.bytes_sent == counter64(payload, o.bytes_sent) && s.version@ == o.version@ && s.uptime == o.uptime && s.clients_connected == o.clients_connected && s.clients_max == o.clients_max && s.clients_expired == o.clients_expired && s.clients_disconnected == o.clients_disconnected && s.clients_total == o.clients_total && s.subscriptions == o.subscriptions && s.topics == o.topics && s.messages_sent == o.messages_sent && s.messages_received == o.messages_received && s.bytes_received == o.bytes_received && s.heap_used == o.heap_used && s.heap_max == o.heap_max && s.retained_count == o.retained_count && s.store_count == o.store_count && s.load_connections == o.load_connections && s.load_sessions == o.load_sessions && s.load_sockets == o.load_sockets,
        has_suffix(topic, "/bytes/received"@) ==> s.bytes_received == counter64(payload, o.bytes_received) && s.version@ == o.version@ && s.uptime == o.uptime && s.clients_connected == o.clients_connected && s.clients_max == o.clients_max && s.clients_expired == o.clients_expired && s.clients_disconnected == o.clients_disconnected && s.clients_total == o.clients_total && s.subscriptions == o.subscriptions && s.topics == o.topics && s.messages_sent == o.messages_sent && s.messages_received == o.messages_received && s.bytes_sent == o.bytes_sent && s.heap_used == o.heap_used && s.heap_max == o.heap_max && s.retained_count == o.retained_count && s.store_count == o.store_count && s.load_connections == o.load_connections && s.load_sessions == o.load_sessions && s.load_sockets == o.load_sockets,
        has_suffix(topic, "/heap/current"@) ==> s.heap_used == counter64(payload, o.heap_used) && s.version@ == o.version@ && s.uptime == o.uptime && s.clients_connected == o.clients_connected && s.clients_max == o.clients_max && s.clients_expired == o.clients_expired && s.clients_disconnected == o.clients_disconnected && s.clients_total == o.clients_total && s.subscriptions == o.subscriptions && s.topics == o.topics && s.messages_sent == o.messages_sent && s.messages_received == o.messages_received && s.bytes_sent == o.bytes_sent && s.bytes_received == o.bytes_received && s.heap_max == o.heap_max && s.retained_count == o.retained_count && s.store_count == o.store_count && s.load_connections == o.load_connections && s.load_sessions == o.load_sessions && s.load_sockets == o.load_sockets,
        has_suffix(topic, "/heap/maximum"@) ==> s.heap_max == counter64(payload, o.heap_max) && s.version@ == o.version@ && s.uptime == o.uptime && s.clients_connected == o.clients_connected && s.clients_max == o.clients_max && s.clients_expired == o.clients_expired && s.clients_disconnected == o.clients_disconnected && s.clients_total == o.clients_total && s.subscriptions == o.subscriptions && s.topics == o.topics && s.messages_sent == o.messages_sent && s.messages_received == o.messages_received && s.bytes_sent == o.bytes_sent && s.bytes_received == o.bytes_received && s.heap_used == o.heap_used && s.retained_count == o.retained_count && s.store_count == o.store_count && s.load_connections == o.load_connections && s.load_sessions == o.load_sessions && s.load_sockets == o.load_sockets,
        has_suffix(topic, "/retained messages/count"@) ==> s.retained_count == counter32(payload, o.retained_count) && s.version@ == o.version@ && s.uptime == o.uptime && s.clients_connected == o.clients_connected && s.clients_max == o.clients_max && s.clients_expired == o.clients_expired && s.clients_disconnected == o.clients_disconnected && s.clients_total == o.clients_total && s.subscriptions == o.subscriptions && s.topics == o.topics && s.messages_sent == o.messages_sent && s.messages_received == o.messages_received && s.bytes_sent == o.bytes_sent && s.bytes_received == o.bytes_received && s.heap_used == o.heap_used && s.heap_max == o.heap_max && s.store_count == o.store_count && s.load_connections == o.load_connections && s.load_sessions == o.load_sessions && s.load_sockets == o.load_sockets,
        has_suffix(topic, "/store/messages/count"@) ==> s.store_count == counter32(payload, o.store_count) && s.version@ == o.version@ && s.uptime == o.uptime && s.clients_connected == o.clients_connected && s.clients_max == o.clients_max && s.clients_expired == o.clients_expired && s.clients_disconnected == o.clients_disconnected && s.clients_total == o.clients_total && s.subscriptions == o.subscriptions && s.topics == o.topics && s.messages_sent == o.messages_sent && s.messages_received == o.messages_received && s.bytes_sent == o.bytes_sent && s.bytes_received == o.bytes_received && s.heap_used == o.heap_used && s.heap_max == o.heap_max && s.retained_count == o.retained_count && s.load_connections == o.load_connections && s.load_sessions == o.load_sessions && s.load_sockets == o.load_sockets,
        has_suffix(topic, "/load/connections"@) ==> s.load_connections == load_value(load, o.load_connections) && s.version@ == o.version@ && s.uptime == o.uptime && s.clients_connected == o.clients_connected && s.clients_max == o.clients_max && s.clients_expired == o.clients_expired && s.clients_disconnected == o.clients_disconnected && s.clients_total == o.clients_total && s.subscriptions == o.subscriptions && s.topics == o.topics && s.messages_sent == o.messages_sent && s.messages_received == o.messages_received && s.bytes_sent == o.bytes_sent && s.bytes_received == o.bytes_received && s.heap_used == o.heap_used && s.heap_max == o.heap_max && s.retained_count == o.retained_count && s.store_count == o.store_count && s.load_sessions == o.load_sessions && s.load_sockets == o.load_sockets,
        has_suffix(topic, "/load/sessions"@) ==> s.load_sessions == load_value(load, o.load_sessions) && s.version@ == o.version@ && s.uptime == o.uptime && s.clients_connected == o.clients_connected && s.clients_max == o.clients_max && s.clients_expired == o.clients_expired && s.clients_disconnected == o.clients_disconnected && s.clients_total == o.clients_total && s.subscriptions == o.subscriptions && s.topics == o.topics && s.messages_sent == o.messages_sent && s.messages_received == o.messages_received && s.bytes_sent == o.bytes_sent && s.bytes_received == o.bytes_received && s.heap_used == o.heap_used && s.heap_max == o.heap_max && s.retained_count == o.retained_count && s.store_count == o.store_count && s.load_connections == o.load_connections && s.load_sockets == o.load_sockets,
        has_suffix(topic, "/load/sockets"@) ==> s.load_sockets == load_value(load, o.load_sockets) && s.version@ == o.version@ && s.uptime == o.uptime && s.clients_connected == o.clients_connected && s.clients_max == o.clients_max && s.clients_expired == o.clients_expired && s.clients_disconnected == o.clients_disconnected && s.clients_total == o.clients_total && s.subscriptions == o.subscriptions && s.topics == o.topics && s.messages_sent == o.messages_sent && s.messages_received == o.messages_received && s.bytes_sent == o.bytes_sent && s.bytes_received == o.bytes_received && s.heap_used == o.heap_used && s.heap_max == o.heap_max && s.retained_count == o.retained_count && s.store_count == o.store_count && s.load_connections == o.load_connections && s.load_sessions == o.load_sessions,
{
    lemma_sys_topic_metrics(topic);
}

} // verus!
