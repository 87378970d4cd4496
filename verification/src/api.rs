//! The decisions behind the REST API: authorization, the generator registry
//! operations, broker settings updates, configuration import and export.
use vstd::prelude::*;
use vstd::string::*;
use crate::config::{catalog_topic, default_diagnostics, default_prefix, generator_topic, GeneratorConfig, MqttConfig};
use crate::supervisor::{command_message, command_prefix, CommandKind};
use crate::text::{
    has_prefix, parse_unsigned, parse_unsigned_upto, str_eq, strip_prefix, trim,
    trimmed,
};

verus! {

/// `i` is the first position in `s` of a generator with id `id`.
pub open spec fn is_first_with_id<F>(s: Seq<GeneratorConfig<F>>, id: Seq<char>, i: int) -> bool {
    &&& 0 <= i < s.len()
    &&& s[i].id@ == id
    &&& forall|k: int| 0 <= k < i ==> s[k].id@ != id
}

/// The first position in `s` of a generator with id `id`, if any.
pub open spec fn first_with_id<F>(s: Seq<GeneratorConfig<F>>, id: Seq<char>) -> Option<int> {
    if exists|i: int| is_first_with_id(s, id, i) {
        Some(choose|i: int| is_first_with_id(s, id, i))
    } else {
        None
    }
}

/// The first position is unique.
pub proof fn lemma_first_with_id_unique<F>(s: Seq<GeneratorConfig<F>>, id: Seq<char>, i: int)
    requires
        is_first_with_id(s, id, i),
    ensures
        first_with_id(s, id) == Some(i),
{
    let j = choose|j: int| is_first_with_id(s, id, j);
    assert(is_first_with_id(s, id, j));
    if j < i {
        assert(s[j].id@ != id);
    } else if i < j {
        assert(s[i].id@ != id);
    }
}

/// Two sequences with the same ids at every position have the same first position for every id.
pub proof fn lemma_first_with_id_same_ids<F>(s: Seq<GeneratorConfig<F>>, t: Seq<GeneratorConfig<F>>, id: Seq<char>)
    requires
        s.len() == t.len(),
        forall|k: int| 0 <= k < s.len() ==> s[k].id@ == t[k].id@,
    ensures
        first_with_id(s, id) == first_with_id(t, id),
{
    if exists|i: int| is_first_with_id(s, id, i) {
        let i = choose|i: int| is_first_with_id(s, id, i);
        assert(is_first_with_id(t, id, i));
        lemma_first_with_id_unique(s, id, i);
        lemma_first_with_id_unique(t, id, i);
    } else {
        assert forall|i: int| !is_first_with_id(t, id, i) by {
            if is_first_with_id(t, id, i) {
                assert(is_first_with_id(s, id, i));
            }
        }
    }
}

/// Position of the first generator with id `id`.
pub fn find_generator<F>(generators: &Vec<GeneratorConfig<F>>, id: &str) -> (r: Option<usize>)
    ensures
        r matches Some(i) ==> first_with_id(generators@, id@) == Some(i as int),
        r is None ==> first_with_id(generators@, id@) is None,
{
    let n = generators.len();
    let mut i: usize = 0;
    while i < n
        invariant
            n == generators@.len(),
            i <= n,
            forall|k: int| 0 <= k < i ==> generators@[k].id@ != id@,
        decreases n - i,
    {
        if str_eq(generators[i].id.as_str(), id) {
            proof {
                lemma_first_with_id_unique(generators@, id@, i as int);
            }
            return Some(i);
        }
        i = i + 1;
    }
    None
}

/// `g` with its `enabled` flag set to `b`.
pub open spec fn with_enabled<F>(g: GeneratorConfig<F>, b: bool) -> GeneratorConfig<F> {
    GeneratorConfig { enabled: b, ..g }
}

/// The generators after toggling the first one with id `id` (unchanged when there is none).
pub open spec fn toggled<F>(s: Seq<GeneratorConfig<F>>, id: Seq<char>) -> Seq<GeneratorConfig<F>> {
    match first_with_id(s, id) {
        Some(i) => s.update(i, with_enabled(s[i], !s[i].enabled)),
        None => s,
    }
}

/// The generators after deleting the first one with id `id` (unchanged when there is none).
pub open spec fn deleted<F>(s: Seq<GeneratorConfig<F>>, id: Seq<char>) -> Seq<GeneratorConfig<F>> {
    match first_with_id(s, id) {
        Some(i) => s.remove(i),
        None => s,
    }
}

/// `a` and `b` agree on every setting but the id and the topic.
pub open spec fn same_settings<F>(a: GeneratorConfig<F>, b: GeneratorConfig<F>) -> bool {
    &&& a.name == b.name
    &&& a.enabled == b.enabled
    &&& a.catalog == b.catalog
    &&& a.wave_type == b.wave_type
    &&& a.interval_ms == b.interval_ms
    &&& a.amplitude == b.amplitude
    &&& a.offset == b.offset
    &&& a.frequency == b.frequency
    &&& a.unit == b.unit
    &&& a.quality == b.quality
    &&& a.min == b.min
    &&& a.max == b.max
    &&& a.drift == b.drift
    &&& a.spike_prob == b.spike_prob
    &&& a.spike_amp == b.spike_amp
    &&& a.noise_amp == b.noise_amp
    &&& a.deadband == b.deadband
    &&& a.hysteresis == b.hysteresis
    &&& a.stuck_prob == b.stuck_prob
    &&& a.stuck_duration_ms == b.stuck_duration_ms
    &&& a.jitter == b.jitter
    &&& a.trend == b.trend
    &&& a.drop_prob == b.drop_prob
    &&& a.degradation_rate == b.degradation_rate
    &&& a.modbus_addr == b.modbus_addr
    &&& a.modbus_fn == b.modbus_fn
    &&& a.modbus_type == b.modbus_type
    &&& a.modbus_scale == b.modbus_scale
    &&& a.modbus_slave == b.modbus_slave
}

/// `stored` is `config` filed under id `id` with the topic that `mqtt` gives it.
pub open spec fn filed_as<F>(stored: GeneratorConfig<F>, config: GeneratorConfig<F>, id: Seq<char>, mqtt: MqttConfig) -> bool {
    &&& same_settings(stored, config)
    &&& stored.id@ == id
    &&& stored.topic@ == catalog_topic(mqtt.topic_prefix@, config.catalog@, id)
}

/// Toggle the first generator with id `id`.  Returns its new `enabled`
/// flag and the supervisor message (`resume:{id}` or `pause:{id}`), or
/// `None` (nothing changed) when no generator has that id.
pub fn toggle_generator<F>(generators: &mut Vec<GeneratorConfig<F>>, id: &str) -> (r: Option<(bool, String)>)
    ensures
        final(generators)@ == toggled(old(generators)@, id@),
        first_with_id(old(generators)@, id@) is None <==> r is None,
        r matches Some((enabled, msg)) ==> {
            let i = first_with_id(old(generators)@, id@)->0;
            &&& enabled == !old(generators)@[i].enabled
            &&& msg@ == command_prefix(if enabled { CommandKind::Resume } else { CommandKind::Pause }) + id@
        },
{
    match find_generator(generators, id) {
        None => None,
        Some(i) => {
            let mut g = generators.remove(i);
            g.enabled = !g.enabled;
            let enabled = g.enabled;
            let ghost flipped = g;
            generators.insert(i, g);
            assert(generators@ =~= old(generators)@.update(i as int, flipped));
            let kind = if enabled { CommandKind::Resume } else { CommandKind::Pause };
            Some((enabled, command_message(kind, id)))
        },
    }
}

/// Delete the first generator with id `id`.  Returns the supervisor message
/// `remove:{id}`, or `None` (nothing changed) when no generator has that id.
pub fn delete_generator<F>(generators: &mut Vec<GeneratorConfig<F>>, id: &str) -> (r: Option<String>)
    ensures
        final(generators)@ == deleted(old(generators)@, id@),
        first_with_id(old(generators)@, id@) is None <==> r is None,
        r matches Some(msg) ==> msg@ == command_prefix(CommandKind::Remove) + id@,
{
    match find_generator(generators, id) {
        None => None,
        Some(i) => {
            generators.remove(i);
            Some(command_message(CommandKind::Remove, id))
        },
    }
}

/// Replace the first generator with id `id` by `config`, filed under that id
/// with the topic `mqtt` gives its catalog.  Returns the supervisor message
/// `update:{id}`, or `None` (nothing changed) when no generator has that id.
pub fn update_generator<F>(
    generators: &mut Vec<GeneratorConfig<F>>,
    id: &str,
    config: GeneratorConfig<F>,
    mqtt: &MqttConfig,
) -> (r: Option<String>)
    ensures
        first_with_id(old(generators)@, id@) is None <==> r is None,
        r is None ==> final(generators)@ == old(generators)@,
        r matches Some(msg) ==> {
            let i = first_with_id(old(generators)@, id@)->0;
            &&& msg@ == command_prefix(CommandKind::Update) + id@
            &&& final(generators)@ == old(generators)@.update(i, final(generators)@[i])
            &&& filed_as(final(generators)@[i], config, id@, *mqtt)
        },
{
    match find_generator(generators, id) {
        None => None,
        Some(i) => {
            let mut config = config;
            config.id = String::from_str(id);
            config.topic = mqtt.topic_for_catalog(config.catalog.as_str(), id);
            generators.set(i, config);
            Some(command_message(CommandKind::Update, id))
        },
    }
}

/// Append `config` to the generators.  A config without id gets `fresh_id`;
/// its topic is the one `mqtt` gives its catalog.  Returns the supervisor
/// message `new:{id}`.
pub fn create_generator_with_id<F>(
    generators: &mut Vec<GeneratorConfig<F>>,
    config: GeneratorConfig<F>,
    fresh_id: String,
    mqtt: &MqttConfig,
) -> (msg: String)
    ensures
        final(generators)@.len() == old(generators)@.len() + 1,
        final(generators)@ == old(generators)@.push(final(generators)@.last()),
        filed_as(
            final(generators)@.last(),
            config,
            if config.id@.len() == 0 { fresh_id@ } else { config.id@ },
            *mqtt,
        ),
        msg@ == command_prefix(CommandKind::New) + final(generators)@.last().id@,
{
    let mut config = config;
    if config.id.as_str().unicode_len() == 0 {
        config.id = fresh_id;
    }
    config.topic = mqtt.topic_for_catalog(config.catalog.as_str(), config.id.as_str());
    let msg = command_message(CommandKind::New, config.id.as_str());
    generators.push(config);
    msg
}

/// `c` is a lowercase hexadecimal digit.
pub open spec fn lower_hex(c: char) -> bool {
    ('0' as u32 <= c as u32 <= '9' as u32) || ('a' as u32 <= c as u32 <= 'f' as u32)
}

/// `s` is a random (version 4, RFC 4122 variant) UUID in lowercase
/// hyphenated form: 36 characters, hyphens at 8, 13, 18 and 23, lowercase
/// hexadecimal digits elsewhere, `4` at 14 and one of `8`, `9`, `a`, `b` at 19.
pub open spec fn uuid_v4_text(s: Seq<char>) -> bool {
    &&& s.len() == 36
    &&& forall|i: int|
        0 <= i < 36 ==> if i == 8 || i == 13 || i == 18 || i == 23 {
            #[trigger] s[i] == '-'
        } else {
            lower_hex(s[i])
        }
    &&& s[14] == '4'
    &&& (s[19] == '8' || s[19] == '9' || s[19] == 'a' || s[19] == 'b')
}

/// `uuid::Uuid::new_v4().to_string()`: a random UUID.  `new_v4` fixes the
/// version nibble to 4 and the variant bits to 10; `to_string` writes the
/// lowercase hyphenated form.  The other digits are random.
#[verifier::external_body]
fn new_uuid() -> (s: String)
    ensures
        uuid_v4_text(s@),
{
    uuid::Uuid::new_v4().to_string()
}

/// Append `config` to the generators, giving it a random UUID when it has no
/// id.  Returns the supervisor message `new:{id}`.
pub fn create_generator<F>(
    generators: &mut Vec<GeneratorConfig<F>>,
    config: GeneratorConfig<F>,
    mqtt: &MqttConfig,
) -> (msg: String)
    ensures
        final(generators)@ == old(generators)@.push(final(generators)@.last()),
        config.id@.len() > 0 ==> filed_as(final(generators)@.last(), config, config.id@, *mqtt),
        config.id@.len() == 0 ==> uuid_v4_text(final(generators)@.last().id@) && filed_as(
            final(generators)@.last(),
            config,
            final(generators)@.last().id@,
            *mqtt,
        ),
        msg@ == command_prefix(CommandKind::New) + final(generators)@.last().id@,
{
    let fresh = if config.id.as_str().unicode_len() == 0 {
        new_uuid()
    } else {
        String::new()
    };
    create_generator_with_id(generators, config, fresh, mqtt)
}

/// Toggling the same generator twice gives back the generators it started from.
pub proof fn lemma_toggle_twice<F>(s: Seq<GeneratorConfig<F>>, id: Seq<char>)
    ensures
        toggled(toggled(s, id), id) == s,
{
    let t = toggled(s, id);
    lemma_first_with_id_same_ids(s, t, id);
    match first_with_id(s, id) {
        Some(i) => {
            let g = s[i];
            assert(toggled(t, id) =~= s);
        },
        None => {},
    }
}

/// When some generator has id `id`, a first one has.
pub proof fn lemma_first_with_id_exists<F>(s: Seq<GeneratorConfig<F>>, id: Seq<char>, k: int)
    requires
        0 <= k < s.len(),
        s[k].id@ == id,
    ensures
        first_with_id(s, id) is Some,
    decreases k,
{
    if exists|q: int| 0 <= q < k && s[q].id@ == id {
        let q = choose|q: int| 0 <= q < k && s[q].id@ == id;
        lemma_first_with_id_exists(s, id, q);
    } else {
        assert(is_first_with_id(s, id, k));
    }
}

/// Deleting a freshly created generator by its id gives back the generators
/// from before its creation.
pub proof fn lemma_delete_undoes_create<F>(s: Seq<GeneratorConfig<F>>, g: GeneratorConfig<F>)
    requires
        first_with_id(s, g.id@) is None,
    ensures
        deleted(s.push(g), g.id@) == s,
{
    let t = s.push(g);
    assert forall|k: int| 0 <= k < s.len() implies s[k].id@ != g.id@ by {
        if s[k].id@ == g.id@ {
            lemma_first_with_id_exists(s, g.id@, k);
        }
    }
    assert(is_first_with_id(t, g.id@, s.len() as int));
    lemma_first_with_id_unique(t, g.id@, s.len() as int);
    assert(t.remove(s.len() as int) =~= s);
}

/// A generator written under id `id` in place of the first one with that id
/// is found again under `id` at the same position.
pub proof fn lemma_update_then_find<F>(s: Seq<GeneratorConfig<F>>, id: Seq<char>, g: GeneratorConfig<F>)
    requires
        first_with_id(s, id) is Some,
        g.id@ == id,
    ensures
        first_with_id(s.update(first_with_id(s, id)->0, g), id) == first_with_id(s, id),
{
    let i = first_with_id(s, id)->0;
    assert(is_first_with_id(s, id, i));
    assert(is_first_with_id(s.update(i, g), id, i));
    lemma_first_with_id_unique(s.update(i, g), id, i);
}

} // verus!

verus! {

/// Whether a request with Authorization header value `authorization` may
/// change anything: always when no token is configured, otherwise only
/// with `Bearer {token}`.
pub open spec fn authorized(token: Option<Seq<char>>, authorization: Option<Seq<char>>) -> bool {
    match token {
        None => true,
        Some(t) => match authorization {
            None => false,
            Some(h) => has_prefix(h, "Bearer "@) && h.subrange("Bearer "@.len() as int, h.len() as int) == t,
        },
    }
}

/// Without a configured token every request may change things; with token
/// `t`, exactly the Authorization header `Bearer {t}` may, and a request
/// without the header may not.
pub proof fn lemma_bearer_token(t: Seq<char>, h: Seq<char>)
    ensures
        authorized(None, Some(h)),
        authorized(None, None),
        !authorized(Some(t), None),
        authorized(Some(t), Some(h)) <==> h == "Bearer "@ + t,
{
    reveal_strlit("Bearer ");
    let p = "Bearer "@;
    if authorized(Some(t), Some(h)) {
        assert(h =~= h.subrange(0, p.len() as int) + h.subrange(p.len() as int, h.len() as int));
    }
    if h == p + t {
        assert(h.subrange(0, p.len() as int) =~= p);
        assert(h.subrange(p.len() as int, h.len() as int) =~= t);
    }
}

/// Check the bearer token of a mutating request.  `authorization` is the
/// Authorization header as text (`None` when absent or not visible ASCII).
/// When no token is configured, every request is allowed.
pub fn auth_ok(api_token: &Option<String>, authorization: Option<&str>) -> (ok: bool)
    ensures
        ok == authorized(
            match api_token { Some(t) => Some(t@), None => None },
            match authorization { Some(h) => Some(h@), None => None },
        ),
{
    match api_token {
        None => true,
        Some(token) => match authorization {
            None => false,
            Some(h) => match strip_prefix(h, "Bearer ") {
                Some(rest) => str_eq(rest, token.as_str()),
                None => false,
            },
        },
    }
}

/// Check the `token` query parameter of a WebSocket request: always allowed
/// when no token is configured, otherwise the parameter must equal it.
pub fn ws_token_ok(api_token: &Option<String>, query_token: Option<&str>) -> (ok: bool)
    ensures
        ok == match api_token {
            None => true,
            Some(t) => match query_token {
                None => false,
                Some(q) => q@ == t@,
            },
        },
{
    match api_token {
        None => true,
        Some(token) => match query_token {
            None => false,
            Some(q) => str_eq(q, token.as_str()),
        },
    }
}

/// What a password is shown as outside the server.
pub open spec fn password_mask() -> Seq<char> {
    "••••••"@
}

/// A password as shown to clients: the mask, unless it is empty.
pub open spec fn masked_password(p: Seq<char>) -> Seq<char> {
    if p.len() == 0 {
        p
    } else {
        password_mask()
    }
}

/// The password stored when `incoming` arrives while `current` is set: the
/// mask stands for the current password.
pub open spec fn restored_password(incoming: Seq<char>, current: Seq<char>) -> Seq<char> {
    if incoming == password_mask() {
        current
    } else {
        incoming
    }
}

/// Sending back the password as it was shown keeps the stored password.
pub proof fn lemma_masked_password_restored(p: Seq<char>)
    ensures
        restored_password(masked_password(p), p) == p,
{
    reveal_strlit("••••••");
}

impl MqttConfig {
    /// These settings as shown to clients: a non-empty password is replaced by the mask.
    pub fn masked(&self) -> (m: MqttConfig)
        ensures
            m.host == self.host,
            m.port == self.port,
            m.username == self.username,
            m.topic_prefix == self.topic_prefix,
            m.diagnostics_topic == self.diagnostics_topic,
            m.use_tls == self.use_tls,
            m.password@ == masked_password(self.password@),
    {
        let mut m = self.clone();
        if self.password.as_str().unicode_len() != 0 {
            m.password = String::from_str("••••••");
        }
        m
    }
}

/// Why broker settings were refused.
#[derive(Debug, Clone, Copy, PartialEq, Eq, Structural)]
pub enum MqttConfigError {
    /// The host is blank.
    HostRequired,
}

/// `incoming` is stored as `stored`, with `current` the settings before:
/// port 0 becomes 1883, blank topics become the defaults, topics are
/// trimmed, and a masked password keeps the current one.
pub open spec fn normalized_settings(stored: MqttConfig, incoming: MqttConfig, current: MqttConfig) -> bool {
    &&& stored.host == incoming.host
    &&& stored.port == if incoming.port == 0 { 1883 } else { incoming.port }
    &&& stored.username == incoming.username
    &&& stored.use_tls == incoming.use_tls
    &&& stored.topic_prefix@ == trimmed(
        if trimmed(incoming.topic_prefix@).len() == 0 { default_prefix() } else { incoming.topic_prefix@ },
    )
    &&& stored.diagnostics_topic@ == trimmed(
        if trimmed(incoming.diagnostics_topic@).len() == 0 {
            default_diagnostics()
        } else {
            incoming.diagnostics_topic@
        },
    )
    &&& stored.password@ == restored_password(incoming.password@, current.password@)
}

/// `g` with its topic re-derived under `prefix` (all else unchanged).
pub open spec fn retopiced<F>(after: GeneratorConfig<F>, before: GeneratorConfig<F>, prefix: Seq<char>) -> bool {
    &&& same_settings(after, before)
    &&& after.id == before.id
    &&& after.topic@ == generator_topic(prefix, before.id@)
}

/// The update messages for the generators among the first `n` whose topic
/// changes under `prefix`, in order.
pub open spec fn retopic_messages<F>(gens: Seq<GeneratorConfig<F>>, prefix: Seq<char>, n: int) -> Seq<Seq<char>>
    decreases n,
{
    if n <= 0 {
        Seq::<Seq<char>>::empty()
    } else if gens[n - 1].topic@ != generator_topic(prefix, gens[n - 1].id@) {
        retopic_messages(gens, prefix, n - 1).push(command_prefix(CommandKind::Update) + gens[n - 1].id@)
    } else {
        retopic_messages(gens, prefix, n - 1)
    }
}

/// Give every generator the plain topic under the current prefix; returns
/// the update messages of those whose topic changed.
fn retopic_generators<F>(generators: &mut Vec<GeneratorConfig<F>>, cfg: &MqttConfig) -> (msgs: Vec<String>)
    ensures
        final(generators)@.len() == old(generators)@.len(),
        forall|k: int| 0 <= k < old(generators)@.len() ==> retopiced(
            #[trigger] final(generators)@[k],
            old(generators)@[k],
            cfg.topic_prefix@,
        ),
        msgs@.map_values(|m: String| m@) == retopic_messages(
            old(generators)@,
            cfg.topic_prefix@,
            old(generators)@.len() as int,
        ),
{
    let ghost before = generators@;
    let n = generators.len();
    let mut msgs: Vec<String> = Vec::new();
    let mut i: usize = 0;
    while i < n
        invariant
            n == generators@.len(),
            n == before.len(),
            i <= n,
            forall|k: int| 0 <= k < i ==> retopiced(#[trigger] generators@[k], before[k], cfg.topic_prefix@),
            forall|k: int| i <= k < n ==> generators@[k] == before[k],
            msgs@.map_values(|m: String| m@) == retopic_messages(before, cfg.topic_prefix@, i as int),
        decreases n - i,
    {
        let topic = cfg.topic_for(generators[i].id.as_str());
        if !str_eq(generators[i].topic.as_str(), topic.as_str()) {
            let msg = command_message(CommandKind::Update, generators[i].id.as_str());
            let mut g = generators.remove(i);
            g.topic = topic;
            generators.insert(i, g);
            msgs.push(msg);
        }
        assert(msgs@.map_values(|m: String| m@) =~= retopic_messages(before, cfg.topic_prefix@, i + 1));
        i = i + 1;
    }
    msgs
}

/// Store new broker settings and re-derive every generator's topic under the
/// new prefix.  A blank host is refused and nothing changes.  Returns the
/// update messages of the generators whose topic changed.
pub fn update_mqtt_config<F>(
    current: &mut MqttConfig,
    incoming: MqttConfig,
    generators: &mut Vec<GeneratorConfig<F>>,
) -> (r: Result<Vec<String>, MqttConfigError>)
    ensures
        r is Err <==> trimmed(incoming.host@).len() == 0,
        r is Err ==> *final(current) == *old(current) && final(generators)@ == old(generators)@,
        r is Ok ==> final(current).host@ == incoming.host@,
        r is Ok ==> final(current).port == if incoming.port == 0 { 1883 } else { incoming.port },
        r is Ok ==> final(current).username@ == incoming.username@,
        r is Ok ==> final(current).use_tls == incoming.use_tls,
        r is Ok ==> final(current).password@ == if incoming.password@ == "••••••"@ {
            old(current).password@
        } else {
            incoming.password@
        },
        r matches Ok(msgs) ==> {
            &&& normalized_settings(*final(current), incoming, *old(current))
            &&& final(generators)@.len() == old(generators)@.len()
            &&& forall|k: int| 0 <= k < old(generators)@.len() ==> retopiced(
                #[trigger] final(generators)@[k],
                old(generators)@[k],
                final(current).topic_prefix@,
            )
            &&& msgs@.map_values(|m: String| m@) == retopic_messages(
                old(generators)@,
                final(current).topic_prefix@,
                old(generators)@.len() as int,
            )
        },
{
    if trim(incoming.host.as_str()).unicode_len() == 0 {
        return Err(MqttConfigError::HostRequired);
    }
    let mut cfg = incoming;
    if cfg.port == 0 {
        cfg.port = 1883;
    }
    let prefix: &str = if trim(cfg.topic_prefix.as_str()).unicode_len() == 0 {
        "signals"
    } else {
        cfg.topic_prefix.as_str()
    };
    let new_prefix = String::from_str(trim(prefix));
    let diag: &str = if trim(cfg.diagnostics_topic.as_str()).unicode_len() == 0 {
        "signals/diagnostics"
    } else {
        cfg.diagnostics_topic.as_str()
    };
    let new_diag = String::from_str(trim(diag));
    cfg.topic_prefix = new_prefix;
    cfg.diagnostics_topic = new_diag;
    if str_eq(cfg.password.as_str(), "••••••") {
        cfg.password = current.password.clone();
    }
    *current = cfg;
    let msgs = retopic_generators(generators, current);
    Ok(msgs)
}

/// Why an imported configuration was refused.
#[derive(Debug, Clone, Copy, PartialEq, Eq, Structural)]
pub enum ImportError {
    /// The backup holds no generators.
    EmptyGenerators,
}

/// Restore a configuration backup: the broker settings when the backup has
/// them (a masked password keeps the current one), then the generators,
/// each filed under the topic its catalog gets with the resulting settings.
/// A backup without generators is refused and nothing changes.  Returns the
/// update message of every imported generator, in order.
pub fn import_config<F>(
    current_mqtt: &mut MqttConfig,
    current_generators: &mut Vec<GeneratorConfig<F>>,
    imported: Vec<GeneratorConfig<F>>,
    mqtt: Option<MqttConfig>,
) -> (r: Result<Vec<String>, ImportError>)
    ensures
        r is Err <==> imported@.len() == 0,
        r is Err ==> *final(current_mqtt) == *old(current_mqtt) && final(current_generators)@ == old(
            current_generators,
        )@,
        r matches Ok(msgs) ==> {
            &&& match mqtt {
                None => *final(current_mqtt) == *old(current_mqtt),
                Some(m) => {
                    &&& final(current_mqtt).host == m.host
                    &&& final(current_mqtt).port == m.port
                    &&& final(current_mqtt).username == m.username
                    &&& final(current_mqtt).topic_prefix == m.topic_prefix
                    &&& final(current_mqtt).diagnostics_topic == m.diagnostics_topic
                    &&& final(current_mqtt).use_tls == m.use_tls
                    &&& final(current_mqtt).password@ == restored_password(
                        m.password@,
                        old(current_mqtt).password@,
                    )
                },
            }
            &&& final(current_generators)@.len() == imported@.len()
            &&& msgs@.len() == imported@.len()
            &&& forall|k: int| 0 <= k < imported@.len() ==> {
                &&& same_settings(#[trigger] final(current_generators)@[k], imported@[k])
                &&& final(current_generators)@[k].id == imported@[k].id
                &&& final(current_generators)@[k].topic@ == catalog_topic(
                    final(current_mqtt).topic_prefix@,
                    imported@[k].catalog@,
                    imported@[k].id@,
                )
                &&& msgs@[k]@ == command_prefix(CommandKind::Update) + imported@[k].id@
            }
        },
{
    if imported.len() == 0 {
        return Err(ImportError::EmptyGenerators);
    }
    match mqtt {
        None => {},
        Some(m) => {
            let mut m = m;
            if str_eq(m.password.as_str(), "••••••") {
                m.password = current_mqtt.password.clone();
            }
            *current_mqtt = m;
        },
    }
    let ghost before = imported@;
    let mut gens = imported;
    let n = gens.len();
    let mut msgs: Vec<String> = Vec::new();
    let mut i: usize = 0;
    while i < n
        invariant
            n == gens@.len(),
            n == before.len(),
            i <= n,
            msgs@.len() == i,
            forall|k: int| 0 <= k < i ==> {
                &&& same_settings(#[trigger] gens@[k], before[k])
                &&& gens@[k].id == before[k].id
                &&& gens@[k].topic@ == catalog_topic(current_mqtt.topic_prefix@, before[k].catalog@, before[k].id@)
                &&& msgs@[k]@ == command_prefix(CommandKind::Update) + before[k].id@
            },
            forall|k: int| i <= k < n ==> gens@[k] == before[k],
        decreases n - i,
    {
        let topic = current_mqtt.topic_for_catalog(gens[i].catalog.as_str(), gens[i].id.as_str());
        let msg = command_message(CommandKind::Update, gens[i].id.as_str());
        let mut g = gens.remove(i);
        g.topic = topic;
        gens.insert(i, g);
        msgs.push(msg);
        i = i + 1;
    }
    *current_generators = gens;
    Ok(msgs)
}

/// Most history points kept per generator.
pub const HISTORY_CAP: usize = 180;

/// Points shown when the request names no valid limit.
pub const HISTORY_DEFAULT_LIMIT: usize = 120;

/// How many history points a request asks for: its `limit` parameter when
/// that is a valid count, 120 otherwise, and never more than `HISTORY_CAP`.
pub fn history_limit(limit: Option<&str>) -> (n: usize)
    ensures
        n == ({
            let asked = match limit {
                Some(l) => match parse_unsigned(l@, usize::MAX as nat) {
                    Some(v) => v,
                    None => HISTORY_DEFAULT_LIMIT as nat,
                },
                None => HISTORY_DEFAULT_LIMIT as nat,
            };
            if asked < HISTORY_CAP { asked } else { HISTORY_CAP as nat }
        }),
{
    let asked: usize = match limit {
        Some(l) => match parse_unsigned_upto(l, usize::MAX as u64) {
            Some(v) => v as usize,
            None => HISTORY_DEFAULT_LIMIT,
        },
        None => HISTORY_DEFAULT_LIMIT,
    };
    if asked < HISTORY_CAP {
        asked
    } else {
        HISTORY_CAP
    }
}

} // verus!
