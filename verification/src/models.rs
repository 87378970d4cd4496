//! The flat JSON-LD signal payload: its entries and the payloads that a
//! generator publishes.
use vstd::prelude::*;
use vstd::string::*;
use crate::clock::{iso_millis_stamp, utc_timestamp};
use crate::config::GeneratorConfig;
use crate::text::str_eq;

verus! {

/// The value of a payload entry: text, a whole number, a measurement of
/// number type `F`, or JSON `null` (what a measurement that is not a finite
/// number is written as).
#[derive(Debug, Clone, PartialEq)]
pub enum EntryValue<F> {
    Text(String),
    Count(u64),
    Measure(F),
    Null,
}

/// The value of a payload entry, with text as characters.
pub enum ValueView<F> {
    Text(Seq<char>),
    Count(u64),
    Measure(F),
    Null,
}

impl<F> View for EntryValue<F> {
    type V = ValueView<F>;

    open spec fn view(&self) -> ValueView<F> {
        match self {
            EntryValue::Text(s) => ValueView::Text(s@),
            EntryValue::Count(n) => ValueView::Count(*n),
            EntryValue::Measure(v) => ValueView::Measure(*v),
            EntryValue::Null => ValueView::Null,
        }
    }
}

/// One element of the flat JSON-LD array: `@id`, `@type`, `name`, `value`.
#[derive(Debug, Clone, PartialEq)]
pub struct FlatEntry<F> {
    pub id: String,
    pub entry_type: String,
    pub name: String,
    pub entry_value: EntryValue<F>,
}

/// A payload entry with its text as characters.
pub struct EntryView<F> {
    pub id: Seq<char>,
    pub entry_type: Seq<char>,
    pub name: Seq<char>,
    pub value: ValueView<F>,
}

impl<F> View for FlatEntry<F> {
    type V = EntryView<F>;

    open spec fn view(&self) -> EntryView<F> {
        EntryView { id: self.id@, entry_type: self.entry_type@, name: self.name@, value: self.entry_value@ }
    }
}

/// The entries of a payload, viewed.
pub open spec fn payload_view<F>(p: Seq<FlatEntry<F>>) -> Seq<EntryView<F>> {
    p.map_values(|e: FlatEntry<F>| e@)
}

/// The entry `id` named `name` with value `value`; its type is always "value".
pub open spec fn entry<F>(id: Seq<char>, name: Seq<char>, value: ValueView<F>) -> EntryView<F> {
    EntryView { id, entry_type: "value"@, name, value }
}

impl<F> FlatEntry<F> {
    /// The entry `id` named `name` holding `value`, of type "value".
    pub fn new(id: &str, name: &str, value: EntryValue<F>) -> (e: Self)
        ensures
            e@ == entry(id@, name@, value@),
    {
        FlatEntry {
            id: String::from_str(id),
            entry_type: String::from_str("value"),
            name: String::from_str(name),
            entry_value: value,
        }
    }
}

/// `id` followed by `suffix`.
fn suffixed(id: &str, suffix: &str) -> (s: String)
    ensures
        s@ == id@ + suffix@,
{
    let mut s = String::from_str(id);
    s.append(suffix);
    s
}

/// The signal payload of generator `id` at time `ts`: time stamp, response
/// code, value, unit, limits and quality.
pub open spec fn signal_view<F>(
    ts: Seq<char>,
    id: Seq<char>,
    name: Seq<char>,
    value: F,
    unit: Seq<char>,
    min: F,
    max: F,
    quality: u8,
) -> Seq<EntryView<F>> {
    seq![
        entry("timestamp"@, "Временная метка"@, ValueView::Text(ts)),
        entry("response_code"@, "Код ответа"@, ValueView::Text("Success. No Command-Specific Errors"@)),
        entry(id, name, ValueView::Measure(value)),
        entry(id + "_unit"@, "Единица измерения"@, ValueView::Text(unit)),
        entry(id + "_min"@, "Минимум"@, ValueView::Measure(min)),
        entry(id + "_max"@, "Максимум"@, ValueView::Measure(max)),
        entry(id + "_quality"@, "Качество данных"@, ValueView::Count(quality as u64)),
    ]
}

/// The Modbus fields that follow the signal payload of a Modbus tag.
pub open spec fn modbus_view<F>(id: Seq<char>, addr: u16, function: u8, data_type: u8, scale: F, slave: u8) -> Seq<EntryView<F>> {
    seq![
        entry(id + "_modbus_addr"@, "Modbus адрес"@, ValueView::Count(addr as u64)),
        entry(id + "_modbus_fn"@, "Modbus функция"@, ValueView::Count(function as u64)),
        entry(id + "_modbus_type"@, "Modbus тип данных"@, ValueView::Count(data_type as u64)),
        entry(id + "_modbus_scale"@, "Modbus масштаб"@, ValueView::Measure(scale)),
        entry(id + "_modbus_slave"@, "Modbus slave ID"@, ValueView::Count(slave as u64)),
    ]
}

/// The signal payload of generator `id` with time stamp `timestamp`.
pub fn build_signal_at<F>(
    timestamp: &str,
    id: &str,
    name: &str,
    value: F,
    unit: &str,
    min: F,
    max: F,
    quality: u8,
) -> (p: Vec<FlatEntry<F>>)
    ensures
        payload_view(p@) == signal_view(timestamp@, id@, name@, value, unit@, min, max, quality),
{
    let mut p: Vec<FlatEntry<F>> = Vec::new();
    p.push(FlatEntry::new("timestamp", "Временная метка", EntryValue::Text(String::from_str(timestamp))));
    p.push(
        FlatEntry::new(
            "response_code",
            "Код ответа",
            EntryValue::Text(String::from_str("Success. No Command-Specific Errors")),
        ),
    );
    p.push(FlatEntry::new(id, name, EntryValue::Measure(value)));
    let unit_id = suffixed(id, "_unit");
    p.push(FlatEntry::new(unit_id.as_str(), "Единица измерения", EntryValue::Text(String::from_str(unit))));
    let min_id = suffixed(id, "_min");
    p.push(FlatEntry::new(min_id.as_str(), "Минимум", EntryValue::Measure(min)));
    let max_id = suffixed(id, "_max");
    p.push(FlatEntry::new(max_id.as_str(), "Максимум", EntryValue::Measure(max)));
    let quality_id = suffixed(id, "_quality");
    p.push(FlatEntry::new(quality_id.as_str(), "Качество данных", EntryValue::Count(quality as u64)));
    assert(payload_view(p@) =~= signal_view(timestamp@, id@, name@, value, unit@, min, max, quality));
    p
}

/// The signal payload of generator `id`, stamped with the current time.
pub fn build_signal<F>(id: &str, name: &str, value: F, unit: &str, min: F, max: F, quality: u8) -> (p: Vec<FlatEntry<F>>)
    ensures
        exists|ts: Seq<char>| iso_millis_stamp(ts) && payload_view(p@) == signal_view(ts, id@, name@, value, unit@, min, max, quality),
{
    let ts = utc_timestamp();
    let p = build_signal_at(ts.as_str(), id, name, value, unit, min, max, quality);
    assert(payload_view(p@) == signal_view(ts@, id@, name@, value, unit@, min, max, quality));
    p
}

/// The last signal of a generator; the same payload as `build_signal`.
pub fn current_signal<F>(id: &str, name: &str, value: F, unit: &str, min: F, max: F, quality: u8) -> (p: Vec<FlatEntry<F>>)
    ensures
        exists|ts: Seq<char>| iso_millis_stamp(ts) && payload_view(p@) == signal_view(ts, id@, name@, value, unit@, min, max, quality),
{
    build_signal(id, name, value, unit, min, max, quality)
}

/// The signal payload of a Modbus tag with time stamp `timestamp`: the
/// signal payload followed by the Modbus address, function, data type,
/// scale and slave id.
pub fn build_modbus_signal_at<F>(
    timestamp: &str,
    id: &str,
    name: &str,
    value: F,
    unit: &str,
    min: F,
    max: F,
    quality: u8,
    modbus_addr: u16,
    modbus_fn: u8,
    modbus_type: u8,
    modbus_scale: F,
    modbus_slave: u8,
) -> (p: Vec<FlatEntry<F>>)
    ensures
        payload_view(p@) == signal_view(timestamp@, id@, name@, value, unit@, min, max, quality) + modbus_view(
            id@,
            modbus_addr,
            modbus_fn,
            modbus_type,
            modbus_scale,
            modbus_slave,
        ),
{
    let mut p = build_signal_at(timestamp, id, name, value, unit, min, max, quality);
    let ghost base = p@;
    let addr_id = suffixed(id, "_modbus_addr");
    p.push(FlatEntry::new(addr_id.as_str(), "Modbus адрес", EntryValue::Count(modbus_addr as u64)));
    let fn_id = suffixed(id, "_modbus_fn");
    p.push(FlatEntry::new(fn_id.as_str(), "Modbus функция", EntryValue::Count(modbus_fn as u64)));
    let type_id = suffixed(id, "_modbus_type");
    p.push(FlatEntry::new(type_id.as_str(), "Modbus тип данных", EntryValue::Count(modbus_type as u64)));
    let scale_id = suffixed(id, "_modbus_scale");
    p.push(FlatEntry::new(scale_id.as_str(), "Modbus масштаб", EntryValue::Measure(modbus_scale)));
    let slave_id = suffixed(id, "_modbus_slave");
    p.push(FlatEntry::new(slave_id.as_str(), "Modbus slave ID", EntryValue::Count(modbus_slave as u64)));
    assert(payload_view(p@) =~= payload_view(base) + modbus_view(
        id@,
        modbus_addr,
        modbus_fn,
        modbus_type,
        modbus_scale,
        modbus_slave,
    ));
    p
}

/// The payload generator `g` publishes for `value`: the signal payload,
/// followed by the Modbus fields when `g` has a Modbus address.
pub open spec fn generator_payload_view<F>(ts: Seq<char>, g: GeneratorConfig<F>, value: F, quality: u8) -> Seq<EntryView<F>> {
    signal_view(ts, g.id@, g.name@, value, g.unit@, g.min, g.max, quality) + if g.modbus_addr > 0 {
        modbus_view(g.id@, g.modbus_addr, g.modbus_fn, g.modbus_type, g.modbus_scale, g.modbus_slave)
    } else {
        Seq::<EntryView<F>>::empty()
    }
}

/// The payload of one tick of generator `g` with value `value` and quality
/// `quality`, stamped with the current time: a Modbus tag payload when the
/// generator has a Modbus address, the plain signal payload otherwise.
pub fn generator_signal<F: Copy>(g: &GeneratorConfig<F>, value: F, quality: u8) -> (p: Vec<FlatEntry<F>>)
    ensures
        exists|ts: Seq<char>| iso_millis_stamp(ts) && payload_view(p@) == generator_payload_view(ts, *g, value, quality),
        p@.len() == if g.modbus_addr > 0 { 12int } else { 7int },
        p@[2].id@ == g.id@ && p@[2].name@ == g.name@ && p@[2].entry_value == EntryValue::Measure(value),
        p@[3].id@ == g.id@ + "_unit"@ && p@[3].entry_value@ == ValueView::<F>::Text(g.unit@),
        p@[4].id@ == g.id@ + "_min"@ && p@[4].entry_value == EntryValue::Measure(g.min),
        p@[5].id@ == g.id@ + "_max"@ && p@[5].entry_value == EntryValue::Measure(g.max),
        p@[6].id@ == g.id@ + "_quality"@ && p@[6].entry_value == EntryValue::<F>::Count(quality as u64),
        g.modbus_addr > 0 ==> {
            &&& p@[7].id@ == g.id@ + "_modbus_addr"@ && p@[7].entry_value == EntryValue::<F>::Count(g.modbus_addr as u64)
            &&& p@[8].id@ == g.id@ + "_modbus_fn"@ && p@[8].entry_value == EntryValue::<F>::Count(g.modbus_fn as u64)
            &&& p@[9].id@ == g.id@ + "_modbus_type"@ && p@[9].entry_value == EntryValue::<F>::Count(g.modbus_type as u64)
            &&& p@[10].id@ == g.id@ + "_modbus_scale"@ && p@[10].entry_value == EntryValue::Measure(g.modbus_scale)
            &&& p@[11].id@ == g.id@ + "_modbus_slave"@ && p@[11].entry_value == EntryValue::<F>::Count(g.modbus_slave as u64)
        },
{

    if g.modbus_addr > 0 {
        let p = build_modbus_signal(
            g.id.as_str(),
            g.name.as_str(),
            value,
            g.unit.as_str(),
            g.min,
            g.max,
            quality,
            g.modbus_addr,
            g.modbus_fn,
            g.modbus_type,
            g.modbus_scale,
            g.modbus_slave,
        );
        let ghost ts = choose|ts: Seq<char>|
            iso_millis_stamp(ts) && payload_view(p@) == signal_view(ts, g.id@, g.name@, value, g.unit@, g.min, g.max, quality)
                + modbus_view(g.id@, g.modbus_addr, g.modbus_fn, g.modbus_type, g.modbus_scale, g.modbus_slave);
        assert(payload_view(p@) == generator_payload_view(ts, *g, value, quality));
        proof {
            lemma_entry_values(p@);
            let sv = signal_view(ts, g.id@, g.name@, value, g.unit@, g.min, g.max, quality);
            let mv = modbus_view(g.id@, g.modbus_addr, g.modbus_fn, g.modbus_type, g.modbus_scale, g.modbus_slave);
            assert forall|k: int| 0 <= k < 7 implies payload_view(p@)[k] == sv[k] by {
                assert((sv + mv)[k] == sv[k]);
            }
            assert forall|k: int| 7 <= k < 12 implies payload_view(p@)[k] == mv[k - 7] by {
                assert((sv + mv)[k] == mv[k - 7]);
            }
            assert(payload_view(p@)[2] == sv[2]);
            assert(payload_view(p@)[3] == sv[3]);
            assert(payload_view(p@)[4] == sv[4]);
            assert(payload_view(p@)[5] == sv[5]);
            assert(payload_view(p@)[6] == sv[6]);
            assert(payload_view(p@)[7] == mv[0]);
            assert(payload_view(p@)[8] == mv[1]);
            assert(payload_view(p@)[9] == mv[2]);
            assert(payload_view(p@)[10] == mv[3]);
            assert(payload_view(p@)[11] == mv[4]);
        }
        p
    } else {
        let p = build_signal(g.id.as_str(), g.name.as_str(), value, g.unit.as_str(), g.min, g.max, quality);
        let ghost ts = choose|ts: Seq<char>|
            iso_millis_stamp(ts) && payload_view(p@) == signal_view(ts, g.id@, g.name@, value, g.unit@, g.min, g.max, quality);
        assert(payload_view(p@) =~= generator_payload_view(ts, *g, value, quality));
        proof {
            lemma_entry_values(p@);
            let sv = signal_view(ts, g.id@, g.name@, value, g.unit@, g.min, g.max, quality);
            assert(payload_view(p@) == sv);
            assert(payload_view(p@)[2] == sv[2]);
            assert(payload_view(p@)[3] == sv[3]);
            assert(payload_view(p@)[4] == sv[4]);
            assert(payload_view(p@)[5] == sv[5]);
            assert(payload_view(p@)[6] == sv[6]);
        }
        p
    }
}

/// An entry's value is determined by its view.
proof fn lemma_entry_values<F>(p: Seq<FlatEntry<F>>)
    ensures
        forall|k: int| 0 <= k < p.len() ==> {
            &&& (#[trigger] payload_view(p)[k]).id == p[k].id@
            &&& payload_view(p)[k].name == p[k].name@
            &&& payload_view(p)[k].value == p[k].entry_value@
            &&& (p[k].entry_value@ matches ValueView::Measure(v) ==> p[k].entry_value == EntryValue::Measure(v))
            &&& (p[k].entry_value@ matches ValueView::Count(n) ==> p[k].entry_value == EntryValue::<F>::Count(n))
        },
{
}

/// The signal payload of a Modbus tag, stamped with the current time.
pub fn build_modbus_signal<F>(
    id: &str,
    name: &str,
    value: F,
    unit: &str,
    min: F,
    max: F,
    quality: u8,
    modbus_addr: u16,
    modbus_fn: u8,
    modbus_type: u8,
    modbus_scale: F,
    modbus_slave: u8,
) -> (p: Vec<FlatEntry<F>>)
    ensures
        exists|ts: Seq<char>|
            iso_millis_stamp(ts) && payload_view(p@) == signal_view(ts, id@, name@, value, unit@, min, max, quality) + modbus_view(
                id@,
                modbus_addr,
                modbus_fn,
                modbus_type,
                modbus_scale,
                modbus_slave,
            ),
{
    let ts = utc_timestamp();
    let p = build_modbus_signal_at(
        ts.as_str(),
        id,
        name,
        value,
        unit,
        min,
        max,
        quality,
        modbus_addr,
        modbus_fn,
        modbus_type,
        modbus_scale,
        modbus_slave,
    );
    assert(payload_view(p@) == signal_view(ts@, id@, name@, value, unit@, min, max, quality) + modbus_view(
        id@,
        modbus_addr,
        modbus_fn,
        modbus_type,
        modbus_scale,
        modbus_slave,
    ));
    p
}

/// Every entry of a signal payload of a generator with an id has an `@id`
/// and the type "value".
pub proof fn lemma_signal_entries_identified<F>(
    ts: Seq<char>,
    id: Seq<char>,
    name: Seq<char>,
    value: F,
    unit: Seq<char>,
    min: F,
    max: F,
    quality: u8,
)
    requires
        id.len() > 0,
    ensures
        signal_view(ts, id, name, value, unit, min, max, quality).len() == 7,
        forall|k: int|
            0 <= k < 7 ==> #[trigger] signal_view(ts, id, name, value, unit, min, max, quality)[k].id.len() > 0
                && signal_view(ts, id, name, value, unit, min, max, quality)[k].entry_type == "value"@,
{
    reveal_strlit("timestamp");
    reveal_strlit("response_code");
}

} // verus!

verus! {

/// The layout of a signal payload: time stamp, response code, the value
/// under the generator's id, then its unit, minimum, maximum and quality
/// under the id with the suffixes `_unit`, `_min`, `_max` and `_quality`.
pub proof fn lemma_signal_layout<F>(
    ts: Seq<char>,
    id: Seq<char>,
    name: Seq<char>,
    value: F,
    unit: Seq<char>,
    min: F,
    max: F,
    quality: u8,
)
    ensures
        ({
            let p = signal_view(ts, id, name, value, unit, min, max, quality);
            &&& p.len() == 7
            &&& p[0].id == "timestamp"@ && p[0].value == ValueView::<F>::Text(ts)
            &&& p[1].id == "response_code"@ && p[1].value == ValueView::<F>::Text("Success. No Command-Specific Errors"@)
            &&& p[2].id == id && p[2].name == name && p[2].value == ValueView::Measure(value)
            &&& p[3].id == id + "_unit"@ && p[3].value == ValueView::<F>::Text(unit)
            &&& p[4].id == id + "_min"@ && p[4].value == ValueView::Measure(min)
            &&& p[5].id == id + "_max"@ && p[5].value == ValueView::Measure(max)
            &&& p[6].id == id + "_quality"@ && p[6].value == ValueView::<F>::Count(quality as u64)
            &&& forall|k: int| 0 <= k < 7 ==> #[trigger] p[k].entry_type == "value"@
        }),
{
}

/// The Modbus fields of a Modbus tag payload: address, function, data type,
/// scale and slave id, under the id with the matching `_modbus_` suffixes.
pub proof fn lemma_modbus_layout<F>(id: Seq<char>, addr: u16, function: u8, data_type: u8, scale: F, slave: u8)
    ensures
        ({
            let m = modbus_view(id, addr, function, data_type, scale, slave);
            &&& m.len() == 5
            &&& m[0].id == id + "_modbus_addr"@ && m[0].value == ValueView::<F>::Count(addr as u64)
            &&& m[1].id == id + "_modbus_fn"@ && m[1].value == ValueView::<F>::Count(function as u64)
            &&& m[2].id == id + "_modbus_type"@ && m[2].value == ValueView::<F>::Count(data_type as u64)
            &&& m[3].id == id + "_modbus_scale"@ && m[3].value == ValueView::Measure(scale)
            &&& m[4].id == id + "_modbus_slave"@ && m[4].value == ValueView::<F>::Count(slave as u64)
        }),
{
}

/// Payload `p` carries the value of generator `id` (under `id` or `sensor/{id}`).
pub open spec fn names_generator<F>(p: Seq<EntryView<F>>, id: Seq<char>) -> bool {
    exists|k: int| 0 <= k < p.len() && (p[k].id == "sensor/"@ + id || p[k].id == id)
}

/// `i` is the first payload of `sigs` that carries generator `id`.
pub open spec fn is_first_naming<F>(sigs: Seq<Vec<FlatEntry<F>>>, id: Seq<char>, i: int) -> bool {
    &&& 0 <= i < sigs.len()
    &&& names_generator(payload_view(sigs[i]@), id)
    &&& forall|k: int| 0 <= k < i ==> !names_generator(payload_view(sigs[k]@), id)
}

/// The first payload of `sigs` that carries generator `id`, if any.
pub open spec fn first_naming<F>(sigs: Seq<Vec<FlatEntry<F>>>, id: Seq<char>) -> Option<int> {
    if exists|i: int| is_first_naming(sigs, id, i) {
        Some(choose|i: int| is_first_naming(sigs, id, i))
    } else {
        None
    }
}

proof fn lemma_first_naming_unique<F>(sigs: Seq<Vec<FlatEntry<F>>>, id: Seq<char>, i: int)
    requires
        is_first_naming(sigs, id, i),
    ensures
        first_naming(sigs, id) == Some(i),
{
    let j = choose|j: int| is_first_naming(sigs, id, j);
    assert(is_first_naming(sigs, id, j));
    if j < i {
        assert(!names_generator(payload_view(sigs[j]@), id));
    } else if i < j {
        assert(!names_generator(payload_view(sigs[i]@), id));
    }
}

/// Whether payload `p` carries generator `id`.
fn payload_names<F>(p: &Vec<FlatEntry<F>>, full_id: &str, id: &str) -> (b: bool)
    requires
        full_id@ == "sensor/"@ + id@,
    ensures
        b == names_generator(payload_view(p@), id@),
{
    let n = p.len();
    let mut k: usize = 0;
    while k < n
        invariant
            n == p@.len(),
            k <= n,
            full_id@ == "sensor/"@ + id@,
            forall|q: int| 0 <= q < k ==> !(p@[q].id@ == "sensor/"@ + id@ || p@[q].id@ == id@),
        decreases n - k,
    {
        if str_eq(p[k].id.as_str(), full_id) || str_eq(p[k].id.as_str(), id) {
            assert(payload_view(p@)[k as int].id == p@[k as int].id@);
            return true;
        }
        k = k + 1;
    }
    assert forall|q: int| 0 <= q < payload_view(p@).len() implies !(payload_view(p@)[q].id == "sensor/"@ + id@
        || payload_view(p@)[q].id == id@) by {
        assert(payload_view(p@)[q].id == p@[q].id@);
    }
    false
}

/// Position of the current payload of generator `id`: the first payload
/// holding an entry `sensor/{id}` or `{id}`.
pub fn find_signal<F>(signals: &Vec<Vec<FlatEntry<F>>>, id: &str) -> (r: Option<usize>)
    ensures
        r matches Some(i) ==> first_naming(signals@, id@) == Some(i as int),
        r is None ==> first_naming(signals@, id@) is None,
{
    let mut full_id = String::from_str("sensor/");
    full_id.append(id);
    let n = signals.len();
    let mut i: usize = 0;
    while i < n
        invariant
            n == signals@.len(),
            i <= n,
            full_id@ == "sensor/"@ + id@,
            forall|k: int| 0 <= k < i ==> !names_generator(payload_view(signals@[k]@), id@),
        decreases n - i,
    {
        if payload_names(&signals[i], full_id.as_str(), id) {
            proof {
                lemma_first_naming_unique(signals@, id@, i as int);
            }
            return Some(i);
        }
        i = i + 1;
    }
    None
}

/// The current payloads after storing `signal` as the one of generator `id`.
pub open spec fn stored_signals<F>(sigs: Seq<Vec<FlatEntry<F>>>, id: Seq<char>, signal: Vec<FlatEntry<F>>) -> Seq<Vec<FlatEntry<F>>> {
    match first_naming(sigs, id) {
        Some(i) => sigs.update(i, signal),
        None => sigs.push(signal),
    }
}

/// Store `signal` as the current payload of generator `id`: it replaces the
/// payload found for `id`, or is appended when there is none.
pub fn store_signal<F>(signals: &mut Vec<Vec<FlatEntry<F>>>, id: &str, signal: Vec<FlatEntry<F>>)
    ensures
        final(signals)@ == stored_signals(old(signals)@, id@, signal),
{
    match find_signal(signals, id) {
        Some(i) => signals.set(i, signal),
        None => signals.push(signal),
    }
}

/// A payload stored for a generator is the one found for it afterwards.
pub proof fn lemma_store_then_find<F>(sigs: Seq<Vec<FlatEntry<F>>>, id: Seq<char>, signal: Vec<FlatEntry<F>>)
    requires
        names_generator(payload_view(signal@), id),
    ensures
        first_naming(stored_signals(sigs, id, signal), id) matches Some(i) && stored_signals(sigs, id, signal)[i]
            == signal,
{
    let t = stored_signals(sigs, id, signal);
    match first_naming(sigs, id) {
        Some(i) => {
            assert(is_first_naming(sigs, id, i));
            assert(is_first_naming(t, id, i));
            lemma_first_naming_unique(t, id, i);
        },
        None => {
            assert forall|k: int| 0 <= k < sigs.len() implies !names_generator(payload_view(sigs[k]@), id) by {
                if names_generator(payload_view(sigs[k]@), id) {
                    lemma_first_naming_exists(sigs, id, k);
                }
            }
            assert(is_first_naming(t, id, sigs.len() as int));
            lemma_first_naming_unique(t, id, sigs.len() as int);
        },
    }
}

proof fn lemma_first_naming_exists<F>(sigs: Seq<Vec<FlatEntry<F>>>, id: Seq<char>, k: int)
    requires
        0 <= k < sigs.len(),
        names_generator(payload_view(sigs[k]@), id),
    ensures
        first_naming(sigs, id) is Some,
    decreases k,
{
    if exists|q: int| 0 <= q < k && names_generator(payload_view(sigs[q]@), id) {
        let q = choose|q: int| 0 <= q < k && names_generator(payload_view(sigs[q]@), id);
        lemma_first_naming_exists(sigs, id, q);
    } else {
        assert(is_first_naming(sigs, id, k));
    }
}

} // verus!
