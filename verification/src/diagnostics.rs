//! The system diagnostics payload.
use vstd::prelude::*;
use vstd::string::*;
use crate::clock::{iso_millis_stamp, utc_timestamp};
use crate::config::GeneratorConfig;
use crate::models::{entry, payload_view, EntryValue, EntryView, FlatEntry, ValueView};

verus! {

/// How many of the first `n` generators are enabled.
pub open spec fn count_enabled<F>(gens: Seq<GeneratorConfig<F>>, n: int) -> nat
    decreases n,
{
    if n <= 0 {
        0
    } else if gens[n - 1].enabled {
        count_enabled(gens, n - 1) + 1
    } else {
        count_enabled(gens, n - 1)
    }
}

/// How many of the first `n` generators have a Modbus address.
pub open spec fn count_modbus<F>(gens: Seq<GeneratorConfig<F>>, n: int) -> nat
    decreases n,
{
    if n <= 0 {
        0
    } else if gens[n - 1].modbus_addr > 0 {
        count_modbus(gens, n - 1) + 1
    } else {
        count_modbus(gens, n - 1)
    }
}

/// The sum of the intervals of the first `n` generators.
pub open spec fn total_interval<F>(gens: Seq<GeneratorConfig<F>>, n: int) -> nat
    decreases n,
{
    if n <= 0 {
        0
    } else {
        total_interval(gens, n - 1) + gens[n - 1].interval_ms as nat
    }
}

/// The mean interval of the generators in whole milliseconds (0 without generators).
pub open spec fn average_interval<F>(gens: Seq<GeneratorConfig<F>>) -> nat {
    if gens.len() == 0 {
        0
    } else {
        total_interval(gens, gens.len() as int) / gens.len()
    }
}

proof fn lemma_counts_bounded<F>(gens: Seq<GeneratorConfig<F>>, n: int)
    requires
        0 <= n,
    ensures
        count_enabled(gens, n) <= n,
        count_modbus(gens, n) <= n,
    decreases n,
{
    if n > 0 {
        lemma_counts_bounded(gens, n - 1);
    }
}

/// There are never more active or Modbus generators than generators.
pub proof fn lemma_diagnostic_counts_bounded<F>(gens: Seq<GeneratorConfig<F>>)
    ensures
        count_enabled(gens, gens.len() as int) <= gens.len(),
        count_modbus(gens, gens.len() as int) <= gens.len(),
{
    lemma_counts_bounded(gens, gens.len() as int);
}

/// Number of enabled generators.
pub fn active_count<F>(generators: &Vec<GeneratorConfig<F>>) -> (n: usize)
    ensures
        n == count_enabled(generators@, generators@.len() as int),
{
    let len = generators.len();
    let mut n: usize = 0;
    let mut i: usize = 0;
    while i < len
        invariant
            len == generators@.len(),
            i <= len,
            n <= i,
            n == count_enabled(generators@, i as int),
        decreases len - i,
    {
        if generators[i].enabled {
            n = n + 1;
        }
        i = i + 1;
    }
    n
}

/// Number of generators with a Modbus address.
pub fn modbus_count<F>(generators: &Vec<GeneratorConfig<F>>) -> (n: usize)
    ensures
        n == count_modbus(generators@, generators@.len() as int),
{
    let len = generators.len();
    let mut n: usize = 0;
    let mut i: usize = 0;
    while i < len
        invariant
            len == generators@.len(),
            i <= len,
            n <= i,
            n == count_modbus(generators@, i as int),
        decreases len - i,
    {
        if generators[i].modbus_addr > 0 {
            n = n + 1;
        }
        i = i + 1;
    }
    n
}

proof fn lemma_total_interval_monotone<F>(gens: Seq<GeneratorConfig<F>>, i: int, j: int)
    requires
        0 <= i <= j,
    ensures
        total_interval(gens, i) <= total_interval(gens, j),
    decreases j - i,
{
    if i < j {
        lemma_total_interval_monotone(gens, i, j - 1);
    }
}

/// Whether the intervals of the generators add up to at most `u64::MAX`
/// (what `build_diagnostics` needs).
pub fn total_interval_fits<F>(generators: &Vec<GeneratorConfig<F>>) -> (b: bool)
    ensures
        b == (total_interval(generators@, generators@.len() as int) <= u64::MAX),
{
    let len = generators.len();
    let mut total: u64 = 0;
    let mut i: usize = 0;
    while i < len
        invariant
            len == generators@.len(),
            i <= len,
            total == total_interval(generators@, i as int),
        decreases len - i,
    {
        match total.checked_add(generators[i].interval_ms) {
            Some(t) => total = t,
            None => {
                proof {
                    lemma_total_interval_monotone(generators@, i + 1, len as int);
                }
                return false;
            },
        }
        i = i + 1;
    }
    true
}

/// The mean interval of the generators in whole milliseconds (0 without generators).
pub fn average_interval_ms<F>(generators: &Vec<GeneratorConfig<F>>) -> (avg: u64)
    requires
        total_interval(generators@, generators@.len() as int) <= u64::MAX,
    ensures
        avg == average_interval(generators@),
{
    let len = generators.len();
    if len == 0 {
        return 0;
    }
    let mut total: u64 = 0;
    let mut i: usize = 0;
    while i < len
        invariant
            len == generators@.len(),
            i <= len,
            total_interval(generators@, len as int) <= u64::MAX,
            total == total_interval(generators@, i as int),
        decreases len - i,
    {
        proof {
            lemma_total_interval_monotone(generators@, i + 1, len as int);
        }
        total = total + generators[i].interval_ms;
        i = i + 1;
    }
    total / (len as u64)
}

/// The diagnostics payload at time `ts`.
pub open spec fn diagnostics_view<F>(
    ts: Seq<char>,
    version: Seq<char>,
    uptime_sec: u64,
    gens: Seq<GeneratorConfig<F>>,
    mqtt_connected: bool,
    signal_rate_hz: F,
    signals_cached: usize,
) -> Seq<EntryView<F>> {
    seq![
        entry("timestamp"@, "Временная метка"@, ValueView::Text(ts)),
        entry("response_code"@, "Код ответа"@, ValueView::Text("Success. Diagnostics"@)),
        entry("system_version"@, "Версия системы"@, ValueView::Text(version)),
        entry("system_uptime_sec"@, "Аптайм (сек)"@, ValueView::Count(uptime_sec)),
        entry(
            "system_mqtt"@,
            "MQTT подключение"@,
            ValueView::Text(if mqtt_connected { "connected"@ } else { "disconnected"@ }),
        ),
        entry("system_generators_total"@, "Генераторов всего"@, ValueView::Count(gens.len() as u64)),
        entry(
            "system_generators_active"@,
            "Генераторов активно"@,
            ValueView::Count(count_enabled(gens, gens.len() as int) as u64),
        ),
        entry(
            "system_generators_modbus"@,
            "Генераторов Modbus"@,
            ValueView::Count(count_modbus(gens, gens.len() as int) as u64),
        ),
        entry("system_avg_interval_ms"@, "Средний интервал (мс)"@, ValueView::Count(average_interval(gens) as u64)),
        entry("system_signal_rate_hz"@, "Частота сигналов (Гц)"@, ValueView::Measure(signal_rate_hz)),
        entry("system_signals_cached"@, "Сигналов в кэше"@, ValueView::Count(signals_cached as u64)),
    ]
}

/// The diagnostics payload with time stamp `timestamp`: version, uptime,
/// broker connection, number of generators (all, enabled, with Modbus), mean
/// interval, signal rate and number of cached signals.  `signal_rate_hz` is
/// shown as given (the caller rounds it to one decimal).
pub fn build_diagnostics_at<F>(
    timestamp: &str,
    version: &str,
    uptime_sec: u64,
    generators: &Vec<GeneratorConfig<F>>,
    mqtt_connected: bool,
    signal_rate_hz: F,
    signals_cached: usize,
) -> (p: Vec<FlatEntry<F>>)
    requires
        total_interval(generators@, generators@.len() as int) <= u64::MAX,
    ensures
        payload_view(p@) == diagnostics_view(
            timestamp@,
            version@,
            uptime_sec,
            generators@,
            mqtt_connected,
            signal_rate_hz,
            signals_cached,
        ),
{
    let total = generators.len();
    let active = active_count(generators);
    let modbus = modbus_count(generators);
    let avg = average_interval_ms(generators);
    let mut p: Vec<FlatEntry<F>> = Vec::new();
    p.push(FlatEntry::new("timestamp", "Временная метка", EntryValue::Text(String::from_str(timestamp))));
    p.push(FlatEntry::new("response_code", "Код ответа", EntryValue::Text(String::from_str("Success. Diagnostics"))));
    p.push(FlatEntry::new("system_version", "Версия системы", EntryValue::Text(String::from_str(version))));
    p.push(FlatEntry::new("system_uptime_sec", "Аптайм (сек)", EntryValue::Count(uptime_sec)));
    let state = if mqtt_connected { "connected" } else { "disconnected" };
    p.push(FlatEntry::new("system_mqtt", "MQTT подключение", EntryValue::Text(String::from_str(state))));
    p.push(FlatEntry::new("system_generators_total", "Генераторов всего", EntryValue::Count(total as u64)));
    p.push(FlatEntry::new("system_generators_active", "Генераторов активно", EntryValue::Count(active as u64)));
    p.push(FlatEntry::new("system_generators_modbus", "Генераторов Modbus", EntryValue::Count(modbus as u64)));
    p.push(FlatEntry::new("system_avg_interval_ms", "Средний интервал (мс)", EntryValue::Count(avg)));
    p.push(FlatEntry::new("system_signal_rate_hz", "Частота сигналов (Гц)", EntryValue::Measure(signal_rate_hz)));
    p.push(FlatEntry::new("system_signals_cached", "Сигналов в кэше", EntryValue::Count(signals_cached as u64)));
    assert(payload_view(p@) =~= diagnostics_view(
        timestamp@,
        version@,
        uptime_sec,
        generators@,
        mqtt_connected,
        signal_rate_hz,
        signals_cached,
    ));
    p
}

/// The diagnostics payload, stamped with the current time.
pub fn build_diagnostics<F>(
    version: &str,
    uptime_sec: u64,
    generators: &Vec<GeneratorConfig<F>>,
    mqtt_connected: bool,
    signal_rate_hz: F,
    signals_cached: usize,
) -> (p: Vec<FlatEntry<F>>)
    requires
        total_interval(generators@, generators@.len() as int) <= u64::MAX,
    ensures
        exists|ts: Seq<char>|
            iso_millis_stamp(ts) && payload_view(p@) == diagnostics_view(
                ts,
                version@,
                uptime_sec,
                generators@,
                mqtt_connected,
                signal_rate_hz,
                signals_cached,
            ),
{
    let ts = utc_timestamp();
    let p = build_diagnostics_at(
        ts.as_str(),
        version,
        uptime_sec,
        generators,
        mqtt_connected,
        signal_rate_hz,
        signals_cached,
    );
    assert(payload_view(p@) == diagnostics_view(
        ts@,
        version@,
        uptime_sec,
        generators@,
        mqtt_connected,
        signal_rate_hz,
        signals_cached,
    ));
    p
}

proof fn lemma_counts_filter<F>(gens: Seq<GeneratorConfig<F>>, n: int)
    requires
        0 <= n <= gens.len(),
    ensures
        count_enabled(gens, n) == gens.take(n).filter(|g: GeneratorConfig<F>| g.enabled).len(),
        count_modbus(gens, n) == gens.take(n).filter(|g: GeneratorConfig<F>| g.modbus_addr > 0).len(),
    decreases n,
{
    reveal(Seq::filter);
    if n > 0 {
        lemma_counts_filter(gens, n - 1);
        assert(gens.take(n).drop_last() =~= gens.take(n - 1));
        assert(gens.take(n).last() == gens[n - 1]);
    }
}

/// The diagnostics payload in full: time stamp, response code, version,
/// uptime, the broker connection as "connected" or "disconnected", the
/// number of generators, of enabled ones and of ones with a Modbus address,
/// the mean interval, the signal rate and the number of cached signals.
pub proof fn lemma_diagnostics_layout<F>(
    ts: Seq<char>,
    version: Seq<char>,
    uptime_sec: u64,
    gens: Seq<GeneratorConfig<F>>,
    mqtt_connected: bool,
    signal_rate_hz: F,
    signals_cached: usize,
)
    ensures
        ({
            let p = diagnostics_view(ts, version, uptime_sec, gens, mqtt_connected, signal_rate_hz, signals_cached);
            &&& p.len() == 11
            &&& p[0].id == "timestamp"@ && p[0].value == ValueView::<F>::Text(ts)
            &&& p[2].id == "system_version"@ && p[2].value == ValueView::<F>::Text(version)
            &&& p[3].id == "system_uptime_sec"@ && p[3].value == ValueView::<F>::Count(uptime_sec)
            &&& p[4].id == "system_mqtt"@ && p[4].value == ValueView::<F>::Text(
                if mqtt_connected { "connected"@ } else { "disconnected"@ },
            )
            &&& p[5].id == "system_generators_total"@ && p[5].value == ValueView::<F>::Count(gens.len() as u64)
            &&& p[6].id == "system_generators_active"@ && p[6].value == ValueView::<F>::Count(
                gens.filter(|g: GeneratorConfig<F>| g.enabled).len() as u64,
            )
            &&& p[7].id == "system_generators_modbus"@ && p[7].value == ValueView::<F>::Count(
                gens.filter(|g: GeneratorConfig<F>| g.modbus_addr > 0).len() as u64,
            )
            &&& p[8].id == "system_avg_interval_ms"@
            &&& p[9].id == "system_signal_rate_hz"@ && p[9].value == ValueView::Measure(signal_rate_hz)
            &&& p[10].id == "system_signals_cached"@ && p[10].value == ValueView::<F>::Count(signals_cached as u64)
        }),
{
    lemma_counts_filter(gens, gens.len() as int);
    assert(gens.take(gens.len() as int) =~= gens);
}

/// The mean interval times the number of generators is the total interval,
/// up to less than one generator's share: `avg * n <= total < (avg + 1) * n`.
pub proof fn lemma_average_interval<F>(gens: Seq<GeneratorConfig<F>>)
    requires
        gens.len() > 0,
    ensures
        average_interval(gens) * gens.len() <= total_interval(gens, gens.len() as int),
        total_interval(gens, gens.len() as int) < (average_interval(gens) + 1) * gens.len(),
{
    let t: int = total_interval(gens, gens.len() as int) as int;
    let n: int = gens.len() as int;
    assert(t == (t / n) * n + t % n) by (nonlinear_arith)
        requires n > 0;
    assert(0 <= t % n < n) by (nonlinear_arith)
        requires n > 0;
    assert((t / n + 1) * n == (t / n) * n + n) by (nonlinear_arith);
}

} // verus!
