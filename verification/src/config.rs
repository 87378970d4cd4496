//! Broker settings, generator settings and the topics derived from them.
use vstd::prelude::*;
use vstd::string::*;
use crate::text::{
    decimal, decimal_string, has_suffix, push_char, trim, trim_char, trim_end_char, trim_end_matching,
    trim_end_ws, trim_matching, trim_start_matching, trim_start_ws, trimmed, unicode_white_space,
};

verus! {

/// The shape of the base wave a generator produces.
#[derive(Debug, Clone, Copy, PartialEq, Eq, Structural)]
pub enum WaveType {
    Sine,
    Sawtooth,
    Square,
    Noise,
    Random,
    Constant,
}

/// The name under which a wave type is shown and stored.
pub open spec fn wave_label(w: WaveType) -> Seq<char> {
    match w {
        WaveType::Sine => "Sine"@,
        WaveType::Sawtooth => "Sawtooth"@,
        WaveType::Square => "Square"@,
        WaveType::Noise => "Noise"@,
        WaveType::Random => "Random"@,
        WaveType::Constant => "Constant"@,
    }
}

impl WaveType {
    /// The display name of the wave type ("Sine", "Sawtooth", ...).
    pub fn label(&self) -> (s: &'static str)
        ensures
            s@ == wave_label(*self),
    {
        match self {
            WaveType::Sine => "Sine",
            WaveType::Sawtooth => "Sawtooth",
            WaveType::Square => "Square",
            WaveType::Noise => "Noise",
            WaveType::Random => "Random",
            WaveType::Constant => "Constant",
        }
    }
}

/// The default per-generator topic stored with a generator that names none.
pub fn default_topic() -> (s: String)
    ensures
        s@ == Seq::<char>::empty(),
{
    String::new()
}

/// The default topic prefix: generators publish to `signals/{id}`.
pub open spec fn default_prefix() -> Seq<char> {
    "signals"@
}

/// The default diagnostics topic, `signals/diagnostics`.
pub open spec fn default_diagnostics() -> Seq<char> {
    "signals/diagnostics"@
}

/// The default diagnostics topic.
pub fn default_diag_topic() -> (s: String)
    ensures
        s@ == default_diagnostics(),
{
    String::from_str("signals/diagnostics")
}

/// The default topic prefix.
pub fn default_topic_prefix() -> (s: String)
    ensures
        s@ == default_prefix(),
{
    String::from_str("signals")
}

/// Connection and topic settings of the MQTT broker.
pub struct MqttConfig {
    /// Broker host name or address.
    pub host: String,
    /// Broker port.
    pub port: u16,
    /// User name; empty means no authentication.
    pub username: String,
    /// Password; empty means no authentication.
    pub password: String,
    /// Prefix of the publication topics: `{prefix}/{id}`; empty means none.
    pub topic_prefix: String,
    /// Topic of the diagnostics payload.
    pub diagnostics_topic: String,
    /// Whether the connection uses TLS.
    pub use_tls: bool,
}

/// The base of every topic under `prefix`: the prefix without trailing
/// slashes, or nothing when the prefix is empty.
pub open spec fn topic_base(prefix: Seq<char>) -> Seq<char> {
    if prefix.len() == 0 {
        Seq::<char>::empty()
    } else {
        trim_end_matching(prefix, '/')
    }
}

/// The topic of generator `id` under `prefix`: `{prefix}/{id}`, or `/{id}`
/// when the prefix is empty; trailing slashes of the prefix are dropped.
pub open spec fn generator_topic(prefix: Seq<char>, id: Seq<char>) -> Seq<char> {
    topic_base(prefix) + seq!['/'] + id
}

/// The key a catalog name is grouped under: blanks and slashes around it removed.
pub open spec fn catalog_key(catalog: Seq<char>) -> Seq<char> {
    trim_matching(trimmed(catalog), '/')
}

/// The topic of generator `id` filed under `catalog`: `{prefix}/{catalog}/{id}`,
/// or the plain generator topic when the catalog key is empty.
pub open spec fn catalog_topic(prefix: Seq<char>, catalog: Seq<char>, id: Seq<char>) -> Seq<char> {
    let key = catalog_key(catalog);
    if key.len() == 0 {
        generator_topic(prefix, id)
    } else {
        topic_base(prefix) + seq!['/'] + key + seq!['/'] + id
    }
}

/// The catalog key of `catalog` (blanks, then slashes, trimmed off both ends).
pub fn catalog_key_of(catalog: &str) -> (k: String)
    ensures
        k@ == catalog_key(catalog@),
{
    String::from_str(trim_char(trim(catalog), '/'))
}

fn append_topic_base(r: &mut String, prefix: &str)
    ensures
        final(r)@ == old(r)@ + topic_base(prefix@),
{
    if prefix.unicode_len() != 0 {
        r.append(trim_end_char(prefix, '/'));
    } else {
        assert(old(r)@ + Seq::<char>::empty() =~= old(r)@);
    }
}

impl MqttConfig {
    /// Full topic of generator `id`: `{prefix}/{id}`, or `/{id}` when the prefix is empty.
    pub fn topic_for(&self, id: &str) -> (t: String)
        ensures
            t@ == generator_topic(self.topic_prefix@, id@),
    {
        let mut r = String::new();
        append_topic_base(&mut r, self.topic_prefix.as_str());
        push_char(&mut r, '/');
        r.append(id);
        assert(r@ =~= generator_topic(self.topic_prefix@, id@));
        r
    }

    /// Full topic of generator `id` filed under `catalog`: `{prefix}/{catalog}/{id}`,
    /// or the plain generator topic when the catalog is blank.
    pub fn topic_for_catalog(&self, catalog: &str, id: &str) -> (t: String)
        ensures
            t@ == catalog_topic(self.topic_prefix@, catalog@, id@),
    {
        let key = catalog_key_of(catalog);
        if key.as_str().unicode_len() == 0 {
            return self.topic_for(id);
        }
        let mut r = String::new();
        append_topic_base(&mut r, self.topic_prefix.as_str());
        push_char(&mut r, '/');
        r.append(key.as_str());
        push_char(&mut r, '/');
        r.append(id);
        assert(r@ =~= catalog_topic(self.topic_prefix@, catalog@, id@));
        r
    }

    /// The `host:port` address of the broker.
    pub fn address(&self) -> (a: String)
        ensures
            a@ == self.host@ + seq![':'] + decimal(self.port as nat),
    {
        let mut r = String::from_str(self.host.as_str());
        push_char(&mut r, ':');
        let p = decimal_string(self.port as u64);
        r.append(p.as_str());
        r
    }
}

impl Clone for MqttConfig {
    fn clone(&self) -> (c: Self)
        ensures
            c == *self,
    {
        MqttConfig {
            host: self.host.clone(),
            port: self.port,
            username: self.username.clone(),
            password: self.password.clone(),
            topic_prefix: self.topic_prefix.clone(),
            diagnostics_topic: self.diagnostics_topic.clone(),
            use_tls: self.use_tls,
        }
    }
}

impl Default for MqttConfig {
    fn default() -> (c: Self)
        ensures
            c.host@ == "79.174.94.236"@,
            c.port == 1883,
            c.username@ == Seq::<char>::empty(),
            c.password@ == Seq::<char>::empty(),
            c.topic_prefix@ == default_prefix(),
            c.diagnostics_topic@ == default_diagnostics(),
            c.topic_prefix@ == "signals"@,
            c.diagnostics_topic@ == "signals/diagnostics"@,
            !c.use_tls,
    {
        MqttConfig {
            host: String::from_str("79.174.94.236"),
            port: 1883,
            username: String::new(),
            password: String::new(),
            topic_prefix: default_topic_prefix(),
            diagnostics_topic: default_diag_topic(),
            use_tls: false,
        }
    }
}

/// Settings of one signal generator.  `F` is the number type of the analog
/// parameters (amplitude, limits, effect strengths); the library only moves
/// them, the simulation computes with them.
#[derive(Debug, Clone, PartialEq)]
pub struct GeneratorConfig<F> {
    pub id: String,
    pub name: String,
    pub enabled: bool,
    pub topic: String,
    /// Catalog (sub-topic) the generator is filed under; blank means none.
    pub catalog: String,
    pub wave_type: WaveType,
    pub interval_ms: u64,
    pub amplitude: F,
    pub offset: F,
    pub frequency: F,
    pub unit: String,
    pub quality: u8,
    pub min: F,
    pub max: F,
    /// Drift (units per second).
    pub drift: F,
    /// Spike probability, 0..1.
    pub spike_prob: F,
    /// Spike amplitude, as a multiple of `amplitude`.
    pub spike_amp: F,
    /// Noise amplitude, as a share of `amplitude`.
    pub noise_amp: F,
    /// Smallest change that is published.
    pub deadband: F,
    /// Hysteresis (units).
    pub hysteresis: F,
    /// Probability of getting stuck, 0..1.
    pub stuck_prob: F,
    /// How long a stuck value lasts, in milliseconds.
    pub stuck_duration_ms: u64,
    /// Jitter of the interval, in percent of `interval_ms`.
    pub jitter: F,
    /// Trend (units per second squared).
    pub trend: F,
    /// Probability that a packet is dropped, 0..1.
    pub drop_prob: F,
    /// Quality degradation per second.
    pub degradation_rate: F,
    /// Modbus register address; 0 means the generator has no Modbus tag.
    pub modbus_addr: u16,
    /// Modbus function: 1 coil, 2 discrete input, 3 holding register, 4 input register.
    pub modbus_fn: u8,
    /// Modbus data type: 0 u16, 1 i16, 2 u32, 3 i32, 4 float, 5 bool.
    pub modbus_type: u8,
    /// Modbus scale (raw to engineering units).
    pub modbus_scale: F,
    /// Modbus slave id.
    pub modbus_slave: u8,
}

/// The names of the wave types: "Sine", "Sawtooth", "Square", "Noise",
/// "Random" and "Constant".
pub proof fn lemma_wave_labels()
    ensures
        wave_label(WaveType::Sine) == "Sine"@,
        wave_label(WaveType::Sawtooth) == "Sawtooth"@,
        wave_label(WaveType::Square) == "Square"@,
        wave_label(WaveType::Noise) == "Noise"@,
        wave_label(WaveType::Random) == "Random"@,
        wave_label(WaveType::Constant) == "Constant"@,
{
}

/// A generator's topic ends with `/` and its id; under a prefix that does
/// not end in `/` it is exactly `{prefix}/{id}`, and without a prefix `/{id}`.
pub proof fn lemma_generator_topic(prefix: Seq<char>, id: Seq<char>)
    ensures
        has_suffix(generator_topic(prefix, id), seq!['/'] + id),
        prefix.len() > 0 && prefix.last() != '/' ==> generator_topic(prefix, id) == prefix + seq!['/'] + id,
        prefix.len() == 0 ==> generator_topic(prefix, id) == seq!['/'] + id,
{
    let t = generator_topic(prefix, id);
    let b = topic_base(prefix);
    assert(t =~= b + (seq!['/'] + id));
    assert(t.subrange(t.len() - (id.len() + 1), t.len() as int) =~= seq!['/'] + id);
}

/// A generator filed under a catalog publishes to `{prefix}/{catalog}/{id}`
/// when the prefix does not end in `/` and the catalog name needs no
/// trimming; a blank catalog gives the plain generator topic.
pub proof fn lemma_catalog_topic(prefix: Seq<char>, catalog: Seq<char>, id: Seq<char>)
    ensures
        catalog_key(catalog).len() == 0 ==> catalog_topic(prefix, catalog, id) == generator_topic(prefix, id),
        prefix.len() > 0 && prefix.last() != '/' && catalog_key(catalog) == catalog && catalog.len() > 0
            ==> catalog_topic(prefix, catalog, id) == prefix + seq!['/'] + catalog + seq!['/'] + id,
{
}

proof fn lemma_trim_start_matching_first(s: Seq<char>, c: char)
    ensures
        trim_start_matching(s, c).len() > 0 ==> trim_start_matching(s, c)[0] != c,
    decreases s.len(),
{
    if s.len() > 0 && s[0] == c {
        lemma_trim_start_matching_first(s.drop_first(), c);
    }
}

proof fn lemma_trim_end_matching_prefix(s: Seq<char>, c: char)
    ensures
        trim_end_matching(s, c).len() <= s.len(),
        trim_end_matching(s, c) == s.subrange(0, trim_end_matching(s, c).len() as int),
        trim_end_matching(s, c).len() > 0 ==> trim_end_matching(s, c).last() != c,
    decreases s.len(),
{
    if s.len() > 0 && s.last() == c {
        lemma_trim_end_matching_prefix(s.drop_last(), c);
        let t = trim_end_matching(s.drop_last(), c);
        assert(s.drop_last().subrange(0, t.len() as int) =~= s.subrange(0, t.len() as int));
    } else {
        assert(s.subrange(0, s.len() as int) =~= s);
    }
}

/// The key a catalog is filed under never starts or ends with `/`, and a
/// catalog name without surrounding blanks or slashes is its own key.
pub proof fn lemma_catalog_key(catalog: Seq<char>)
    ensures
        catalog_key(catalog).len() > 0 ==> catalog_key(catalog)[0] != '/' && catalog_key(catalog).last() != '/',
        catalog.len() > 0 && !unicode_white_space(catalog[0]) && !unicode_white_space(catalog.last())
            && catalog[0] != '/' && catalog.last() != '/' ==> catalog_key(catalog) == catalog,
{
    let t = trimmed(catalog);
    let a = trim_start_matching(t, '/');
    lemma_trim_start_matching_first(t, '/');
    lemma_trim_end_matching_prefix(a, '/');
    let k = trim_end_matching(a, '/');
    if k.len() > 0 {
        assert(k[0] == a[0]);
    }
    if catalog.len() > 0 && !unicode_white_space(catalog[0]) && !unicode_white_space(catalog.last())
        && catalog[0] != '/' && catalog.last() != '/' {
        assert(trim_start_ws(catalog) == catalog);
        assert(trim_end_ws(catalog) == catalog);
        assert(trim_start_matching(catalog, '/') == catalog);
        assert(trim_end_matching(catalog, '/') == catalog);
    }
}

} // verus!
