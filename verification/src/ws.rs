//! What the live view sends: which generator a payload belongs to, its time
//! stamp, and which payloads changed since the last update.
use vstd::prelude::*;
use vstd::string::*;
use crate::history::{
    distinct_keys, find_key, first_key, keyed, lemma_lookup_after_store, lemma_no_first_key, lemma_same_keys_same_first,
    lookup,
};
use crate::models::{payload_view, EntryValue, EntryView, FlatEntry, ValueView};
use crate::text::{contains, ends_with, has_infix, has_prefix, has_suffix, starts_with, str_eq};

verus! {

/// Entry `e` holds the generator's own value: a number whose id is not one
/// of the unit, limit, quality or Modbus fields.
pub open spec fn is_value_entry<F>(e: EntryView<F>) -> bool {
    &&& (e.value is Count || e.value is Measure)
    &&& !has_suffix(e.id, "_unit"@)
    &&& !has_suffix(e.id, "_min"@)
    &&& !has_suffix(e.id, "_max"@)
    &&& !has_suffix(e.id, "_quality"@)
    &&& !has_infix(e.id, "_modbus_"@)
}

/// `s` with every leading repetition of `p` removed.
pub open spec fn strip_leading(s: Seq<char>, p: Seq<char>) -> Seq<char>
    decreases s.len(),
{
    if p.len() > 0 && has_prefix(s, p) {
        strip_leading(s.subrange(p.len() as int, s.len() as int), p)
    } else {
        s
    }
}

/// `i` is the first value entry of `p`.
pub open spec fn is_first_value_entry<F>(p: Seq<EntryView<F>>, i: int) -> bool {
    &&& 0 <= i < p.len()
    &&& is_value_entry(p[i])
    &&& forall|k: int| 0 <= k < i ==> !is_value_entry(p[k])
}

/// The generator id of a payload: the id of its first value entry without
/// `sensor/` prefixes, or empty when it has none.
pub open spec fn payload_generator<F>(p: Seq<EntryView<F>>) -> Seq<char> {
    if exists|i: int| is_first_value_entry(p, i) {
        strip_leading(p[choose|i: int| is_first_value_entry(p, i)].id, "sensor/"@)
    } else {
        Seq::<char>::empty()
    }
}

/// `s` with every leading `sensor/` removed.
fn strip_sensor_prefix(s: &str) -> (r: &str)
    ensures
        r@ == strip_leading(s@, "sensor/"@),
{
    let mut r = s;
    proof {
        reveal_strlit("sensor/");
    }
    loop
        invariant
            strip_leading(s@, "sensor/"@) == strip_leading(r@, "sensor/"@),
        decreases r@.len(),
    {
        if !starts_with(r, "sensor/") {
            return r;
        }
        proof {
            reveal_strlit("sensor/");
        }
        let n = r.unicode_len();
        r = r.substring_char(7, n);
    }
}

/// Whether entry `e` holds the generator's own value.
fn value_entry<F>(e: &FlatEntry<F>) -> (b: bool)
    ensures
        b == is_value_entry(e@),
{
    let numeric = match &e.entry_value {
        EntryValue::Text(_) => false,
        EntryValue::Null => false,
        _ => true,
    };
    let id = e.id.as_str();
    numeric && !ends_with(id, "_unit") && !ends_with(id, "_min") && !ends_with(id, "_max") && !ends_with(
        id,
        "_quality",
    ) && !contains(id, "_modbus_")
}

/// The generator a payload belongs to: the id of its first numeric entry
/// that is not a unit, limit, quality or Modbus field, without `sensor/`
/// prefixes; empty when there is none.
pub fn payload_id<F>(payload: &Vec<FlatEntry<F>>) -> (id: String)
    ensures
        id@ == payload_generator(payload_view(payload@)),
{
    let ghost pv = payload_view(payload@);
    let n = payload.len();
    let mut i: usize = 0;
    while i < n
        invariant
            n == payload@.len(),
            pv == payload_view(payload@),
            i <= n,
            forall|k: int| 0 <= k < i ==> !is_value_entry(pv[k]),
        decreases n - i,
    {
        if value_entry(&payload[i]) {
            assert(is_first_value_entry(pv, i as int));
            let ghost j = choose|j: int| is_first_value_entry(pv, j);
            assert(j == i) by {
                assert(is_first_value_entry(pv, j));
                if j < i {
                    assert(!is_value_entry(pv[j]));
                } else if i < j {
                    assert(!is_value_entry(pv[i as int]));
                }
            }
            return String::from_str(strip_sensor_prefix(payload[i].id.as_str()));
        }
        i = i + 1;
    }
    String::new()
}

/// `i` is the first `timestamp` entry of `p`.
pub open spec fn is_first_stamp<F>(p: Seq<EntryView<F>>, i: int) -> bool {
    &&& 0 <= i < p.len()
    &&& p[i].id == "timestamp"@
    &&& forall|k: int| 0 <= k < i ==> p[k].id != "timestamp"@
}

/// The time stamp of a payload: the text of its first `timestamp` entry, or
/// empty when there is none or its value is not text.
pub open spec fn payload_time<F>(p: Seq<EntryView<F>>) -> Seq<char> {
    if exists|i: int| is_first_stamp(p, i) {
        match p[choose|i: int| is_first_stamp(p, i)].value {
            ValueView::Text(t) => t,
            _ => Seq::<char>::empty(),
        }
    } else {
        Seq::<char>::empty()
    }
}

/// The time stamp of a payload: the text of its first `timestamp` entry,
/// empty when there is none or it is not text.
pub fn payload_timestamp<F>(payload: &Vec<FlatEntry<F>>) -> (ts: String)
    ensures
        ts@ == payload_time(payload_view(payload@)),
{
    let ghost pv = payload_view(payload@);
    let n = payload.len();
    let mut i: usize = 0;
    while i < n
        invariant
            n == payload@.len(),
            pv == payload_view(payload@),
            i <= n,
            forall|k: int| 0 <= k < i ==> pv[k].id != "timestamp"@,
        decreases n - i,
    {
        if str_eq(payload[i].id.as_str(), "timestamp") {
            assert(is_first_stamp(pv, i as int));
            let ghost j = choose|j: int| is_first_stamp(pv, j);
            assert(j == i) by {
                assert(is_first_stamp(pv, j));
                if j < i {
                    assert(pv[j].id != "timestamp"@);
                } else if i < j {
                    assert(pv[i as int].id != "timestamp"@);
                }
            }
            return match &payload[i].entry_value {
                EntryValue::Text(t) => String::from_str(t.as_str()),
                _ => String::new(),
            };
        }
        i = i + 1;
    }
    assert forall|j: int| !is_first_stamp(pv, j) by {
        if is_first_stamp(pv, j) {
            assert(pv[j].id != "timestamp"@);
        }
    }
    String::new()
}

/// The table after storing `v` under key `k`: the first entry for `k` gets
/// the value, or an entry for `k` is appended.
pub open spec fn stored(t: Seq<(Seq<char>, Seq<char>)>, k: Seq<char>, v: Seq<char>) -> Seq<(Seq<char>, Seq<char>)> {
    match first_key(t, k) {
        Some(i) => t.update(i, (k, v)),
        None => t.push((k, v)),
    }
}

/// Comparing the first `n` payloads of `sigs` with the last time stamps
/// sent, `table`: the table afterwards and the positions of the payloads
/// that changed.  A payload without a generator id is skipped; one whose
/// time stamp differs from the one recorded for its generator (or that has
/// none recorded) is changed, and its time stamp is recorded.
pub open spec fn diff_upto<F>(table: Seq<(Seq<char>, Seq<char>)>, sigs: Seq<Seq<EntryView<F>>>, n: int) -> (Seq<(Seq<char>, Seq<char>)>, Seq<int>)
    decreases n,
{
    if n <= 0 {
        (table, Seq::<int>::empty())
    } else {
        let (t, changed) = diff_upto(table, sigs, n - 1);
        let id = payload_generator(sigs[n - 1]);
        let ts = payload_time(sigs[n - 1]);
        if id.len() == 0 || lookup(t, id) == Some(ts) {
            (t, changed)
        } else {
            (stored(t, id, ts), changed.push(n - 1))
        }
    }
}

/// The time stamps last sent to a live-view client, by generator id; each
/// generator has at most one.
pub struct SignalTimestamps {
    last: Vec<(String, String)>,
}

/// The entries of a time stamp table as characters.
pub open spec fn stamps_view(v: Seq<(String, String)>) -> Seq<(Seq<char>, Seq<char>)> {
    v.map_values(|e: (String, String)| (e.0@, e.1@))
}

/// The payloads of `sigs`, viewed.
pub open spec fn payloads_view<F>(sigs: Seq<Vec<FlatEntry<F>>>) -> Seq<Seq<EntryView<F>>> {
    sigs.map_values(|p: Vec<FlatEntry<F>>| payload_view(p@))
}

impl SignalTimestamps {
    #[verifier::type_invariant]
    spec fn one_stamp_each(self) -> bool {
        distinct_keys(stamps_view(self.last@))
    }

    /// The recorded time stamps, by generator id.
    pub closed spec fn view_table(self) -> Seq<(Seq<char>, Seq<char>)> {
        stamps_view(self.last@)
    }

    /// No time stamp sent yet.
    pub fn new() -> (t: Self)
        ensures
            t.view_table() == Seq::<(Seq<char>, Seq<char>)>::empty(),
    {
        let t = SignalTimestamps { last: Vec::new() };
        assert(t.view_table() =~= Seq::<(Seq<char>, Seq<char>)>::empty());
        t
    }

    /// The time stamp last sent for generator `id`, if any.
    pub fn last_sent(&self, id: &str) -> (r: Option<String>)
        ensures
            r matches Some(s) ==> lookup(self.view_table(), id@) == Some(s@),
            r is None ==> lookup(self.view_table(), id@) is None,
    {
        proof {
            lemma_same_keys_same_first(keyed(self.last@), stamps_view(self.last@), id@);
        }
        match find_key(&self.last, id) {
            Some(i) => Some(String::from_str(self.last[i].1.as_str())),
            None => None,
        }
    }

    /// Positions of the payloads whose time stamp changed since they were
    /// last sent, in order; their time stamps are recorded as sent.
    pub fn diff_snapshot<F>(&mut self, signals: &Vec<Vec<FlatEntry<F>>>) -> (changed: Vec<usize>)
        ensures
            ({
                let (t, ch) = diff_upto(old(self).view_table(), payloads_view(signals@), signals@.len() as int);
                &&& final(self).view_table() == t
                &&& changed@.len() == ch.len()
                &&& forall|k: int| 0 <= k < ch.len() ==> changed@[k] as int == ch[k]
            }),
    {
        proof {
            use_type_invariant(&*self);
        }
        let ghost table0 = self.view_table();
        let ghost sv = payloads_view(signals@);
        let mut last: Vec<(String, String)> = Vec::new();
        std::mem::swap(&mut last, &mut self.last);
        let n = signals.len();
        let mut changed: Vec<usize> = Vec::new();
        let mut j: usize = 0;
        while j < n
            invariant
                n == signals@.len(),
                sv == payloads_view(signals@),
                j <= n,
                distinct_keys(stamps_view(last@)),
                ({
                    let (t, ch) = diff_upto(table0, sv, j as int);
                    &&& stamps_view(last@) == t
                    &&& changed@.len() == ch.len()
                    &&& forall|k: int| 0 <= k < ch.len() ==> changed@[k] as int == ch[k]
                }),
            decreases n - j,
        {
            let ghost t = stamps_view(last@);
            let id = payload_id(&signals[j]);
            let ghost idv = id@;
            assert(sv[j as int] == payload_view(signals@[j as int]@));
            if id.as_str().unicode_len() != 0 {
                let ts = payload_timestamp(&signals[j]);
                let ghost tsv = ts@;
                proof {
                    lemma_same_keys_same_first(keyed(last@), t, idv);
                }
                match find_key(&last, id.as_str()) {
                    Some(i) => {
                        assert(lookup(t, idv) == Some(last@[i as int].1@));
                        if !str_eq(last[i].1.as_str(), ts.as_str()) {
                            last.set(i, (id, ts));
                            changed.push(j);
                            assert(stamps_view(last@) =~= stored(t, idv, tsv));
                        }
                    },
                    None => {
                        proof {
                            lemma_no_first_key(t, idv);
                        }
                        last.push((id, ts));
                        changed.push(j);
                        assert(stamps_view(last@) =~= stored(t, idv, tsv));
                    },
                }
            }
            j = j + 1;
        }
        self.last = last;
        changed
    }
}

/// Every generator among the first `n` payloads of `sigs` has its payload's
/// time stamp recorded in `t`.
pub open spec fn all_recorded<F>(t: Seq<(Seq<char>, Seq<char>)>, sigs: Seq<Seq<EntryView<F>>>, n: int) -> bool {
    forall|k: int|
        0 <= k < n && payload_generator(#[trigger] sigs[k]).len() > 0 ==> lookup(t, payload_generator(sigs[k]))
            == Some(payload_time(sigs[k]))
}

/// Payloads of `sigs` that belong to the same generator carry the same time
/// stamp (as when no two belong to the same generator).
pub open spec fn consistent_stamps<F>(sigs: Seq<Seq<EntryView<F>>>) -> bool {
    forall|a: int, b: int|
        0 <= a < b < sigs.len() && payload_generator(#[trigger] sigs[a]).len() > 0 && payload_generator(sigs[a])
            == payload_generator(#[trigger] sigs[b]) ==> payload_time(sigs[a]) == payload_time(sigs[b])
}

proof fn lemma_diff_records<F>(t0: Seq<(Seq<char>, Seq<char>)>, sigs: Seq<Seq<EntryView<F>>>, n: int)
    requires
        0 <= n <= sigs.len(),
        consistent_stamps(sigs),
    ensures
        all_recorded(diff_upto(t0, sigs, n).0, sigs, n),
    decreases n,
{
    if n > 0 {
        lemma_diff_records(t0, sigs, n - 1);
        let t = diff_upto(t0, sigs, n - 1).0;
        let id = payload_generator(sigs[n - 1]);
        let ts = payload_time(sigs[n - 1]);
        if !(id.len() == 0 || lookup(t, id) == Some(ts)) {
            assert forall|k: int|
                0 <= k < n && payload_generator(#[trigger] sigs[k]).len() > 0 implies lookup(
                stored(t, id, ts),
                payload_generator(sigs[k]),
            ) == Some(payload_time(sigs[k])) by {
                lemma_lookup_after_store(t, id, ts, payload_generator(sigs[k]));
                if k < n - 1 && payload_generator(sigs[k]) == payload_generator(sigs[n - 1]) {
                    assert(payload_time(sigs[k]) == payload_time(sigs[n - 1]));
                }
            }
        }
    }
}

proof fn lemma_diff_quiet<F>(t: Seq<(Seq<char>, Seq<char>)>, sigs: Seq<Seq<EntryView<F>>>, n: int)
    requires
        0 <= n <= sigs.len(),
        all_recorded(t, sigs, n),
    ensures
        diff_upto(t, sigs, n) == (t, Seq::<int>::empty()),
    decreases n,
{
    if n > 0 {
        lemma_diff_quiet(t, sigs, n - 1);
        let id = payload_generator(sigs[n - 1]);
        if id.len() > 0 {
            assert(lookup(t, id) == Some(payload_time(sigs[n - 1])));
        }
    }
}

/// Only changed signals are sent again: when payloads of the same generator
/// carry the same time stamp (in particular when no two payloads belong to
/// the same generator), a second comparison of the same payloads right after
/// a first one reports nothing and leaves the recorded time stamps as they are.
pub proof fn lemma_diff_settles<F>(table: Seq<(Seq<char>, Seq<char>)>, sigs: Seq<Seq<EntryView<F>>>)
    requires
        consistent_stamps(sigs),
    ensures
        ({
            let after = diff_upto(table, sigs, sigs.len() as int).0;
            diff_upto(after, sigs, sigs.len() as int) == (after, Seq::<int>::empty())
        }),
{
    lemma_diff_records(table, sigs, sigs.len() as int);
    lemma_diff_quiet(diff_upto(table, sigs, sigs.len() as int).0, sigs, sigs.len() as int);
}

proof fn lemma_diff_keeps_other<F>(table: Seq<(Seq<char>, Seq<char>)>, sigs: Seq<Seq<EntryView<F>>>, n: int, key: Seq<char>)
    requires
        0 <= n <= sigs.len(),
        forall|j: int| 0 <= j < n ==> payload_generator(#[trigger] sigs[j]) != key,
    ensures
        lookup(diff_upto(table, sigs, n).0, key) == lookup(table, key),
    decreases n,
{
    if n > 0 {
        lemma_diff_keeps_other(table, sigs, n - 1, key);
        let t = diff_upto(table, sigs, n - 1).0;
        let id = payload_generator(sigs[n - 1]);
        let ts = payload_time(sigs[n - 1]);
        lemma_lookup_after_store(t, id, ts, key);
    }
}

proof fn lemma_diff_changed_grows<F>(table: Seq<(Seq<char>, Seq<char>)>, sigs: Seq<Seq<EntryView<F>>>, m: int, n: int, k: int)
    requires
        0 <= m <= n <= sigs.len(),
        diff_upto(table, sigs, m).1.contains(k),
    ensures
        diff_upto(table, sigs, n).1.contains(k),
    decreases n - m,
{
    if m < n {
        lemma_diff_changed_grows(table, sigs, m, n - 1, k);
        let ch = diff_upto(table, sigs, n - 1).1;
        let i = choose|i: int| 0 <= i < ch.len() && ch[i] == k;
        assert(ch.push(n - 1)[i] == k);
    }
}

/// What the live view sends: a payload of a generator whose time stamp
/// differs from the one last recorded for that generator (or that has none
/// recorded) is reported as changed, when no earlier payload belongs to the
/// same generator; one that belongs to no generator, or whose time stamp
/// equals the recorded one and comes first for its generator, is not.
pub proof fn lemma_diff_reports_changes<F>(table: Seq<(Seq<char>, Seq<char>)>, sigs: Seq<Seq<EntryView<F>>>, k: int)
    requires
        0 <= k < sigs.len(),
        forall|j: int| 0 <= j < k ==> payload_generator(#[trigger] sigs[j]) != payload_generator(sigs[k]),
    ensures
        payload_generator(sigs[k]).len() > 0 && lookup(table, payload_generator(sigs[k])) != Some(
            payload_time(sigs[k]),
        ) ==> diff_upto(table, sigs, sigs.len() as int).1.contains(k),
        payload_generator(sigs[k]).len() == 0 || lookup(table, payload_generator(sigs[k])) == Some(
            payload_time(sigs[k]),
        ) ==> !diff_upto(table, sigs, sigs.len() as int).1.contains(k),
{
    lemma_diff_keeps_other(table, sigs, k, payload_generator(sigs[k]));
    lemma_diff_positions(table, sigs, sigs.len() as int);
    let after = diff_upto(table, sigs, k + 1).1;
    if payload_generator(sigs[k]).len() > 0 && lookup(table, payload_generator(sigs[k])) != Some(payload_time(sigs[k])) {
        assert(after.last() == k);
        assert(after.contains(k));
        lemma_diff_changed_grows(table, sigs, k + 1, sigs.len() as int, k);
    } else {
        lemma_diff_positions(table, sigs, k);
        lemma_diff_positions_from(table, sigs, k + 1, sigs.len() as int);
        if diff_upto(table, sigs, sigs.len() as int).1.contains(k) {
            let ch = diff_upto(table, sigs, sigs.len() as int).1;
            let i = choose|i: int| 0 <= i < ch.len() && ch[i] == k;
        }
    }
}

proof fn lemma_diff_positions<F>(table: Seq<(Seq<char>, Seq<char>)>, sigs: Seq<Seq<EntryView<F>>>, n: int)
    requires
        0 <= n <= sigs.len(),
    ensures
        forall|i: int| 0 <= i < diff_upto(table, sigs, n).1.len() ==> 0 <= #[trigger] diff_upto(table, sigs, n).1[i] < n,
    decreases n,
{
    if n > 0 {
        lemma_diff_positions(table, sigs, n - 1);
        let ch = diff_upto(table, sigs, n - 1).1;
        let cur = diff_upto(table, sigs, n).1;
        assert forall|i: int| 0 <= i < cur.len() implies 0 <= #[trigger] cur[i] < n by {
            if i < ch.len() {
                assert(cur[i] == ch[i]);
            }
        }
    }
}

/// The positions reported by steps `m..n` are at least `m`, and the ones
/// reported before are those reported after `m` steps.
proof fn lemma_diff_positions_from<F>(table: Seq<(Seq<char>, Seq<char>)>, sigs: Seq<Seq<EntryView<F>>>, m: int, n: int)
    requires
        0 <= m <= n <= sigs.len(),
    ensures
        diff_upto(table, sigs, m).1.len() <= diff_upto(table, sigs, n).1.len(),
        forall|i: int| 0 <= i < diff_upto(table, sigs, m).1.len() ==> diff_upto(table, sigs, n).1[i] == diff_upto(table, sigs, m).1[i],
        forall|i: int|
            diff_upto(table, sigs, m).1.len() <= i < diff_upto(table, sigs, n).1.len() ==> #[trigger] diff_upto(table, sigs, n).1[i] >= m,
    decreases n - m,
{
    if m < n {
        lemma_diff_positions_from(table, sigs, m, n - 1);
    }
}

/// Number of update ticks between two full snapshots.
pub const FULL_SNAPSHOT_TICKS: u32 = 10;

/// One tick of the live view after `count` ticks since the last full
/// snapshot: every tenth tick sends a full snapshot and restarts the count,
/// the others send the changed signals.  The result is the new count and
/// whether a full snapshot is due.
pub fn live_tick(count: u32) -> (r: (u32, bool))
    requires
        count < u32::MAX,
    ensures
        count + 1 >= FULL_SNAPSHOT_TICKS ==> r == (0u32, true),
        count + 1 < FULL_SNAPSHOT_TICKS ==> r == ((count + 1) as u32, false),
{
    let next = count + 1;
    if next >= FULL_SNAPSHOT_TICKS {
        (0, true)
    } else {
        (next, false)
    }
}

/// The positions among the first `n` payloads of `sigs` that belong to a
/// generator, in order.
pub open spec fn identified_upto<F>(sigs: Seq<Seq<EntryView<F>>>, n: int) -> Seq<int>
    decreases n,
{
    if n <= 0 {
        Seq::<int>::empty()
    } else if payload_generator(sigs[n - 1]).len() == 0 {
        identified_upto(sigs, n - 1)
    } else {
        identified_upto(sigs, n - 1).push(n - 1)
    }
}

/// Positions of the payloads a full snapshot lists: those that belong to a
/// generator, in order.
pub fn snapshot_positions<F>(signals: &Vec<Vec<FlatEntry<F>>>) -> (r: Vec<usize>)
    ensures
        r@.len() == identified_upto(payloads_view(signals@), signals@.len() as int).len(),
        forall|k: int|
            0 <= k < r@.len() ==> r@[k] as int == identified_upto(payloads_view(signals@), signals@.len() as int)[k],
{
    let ghost sv = payloads_view(signals@);
    let n = signals.len();
    let mut r: Vec<usize> = Vec::new();
    let mut j: usize = 0;
    while j < n
        invariant
            n == signals@.len(),
            sv == payloads_view(signals@),
            j <= n,
            r@.len() == identified_upto(sv, j as int).len(),
            forall|k: int| 0 <= k < r@.len() ==> r@[k] as int == identified_upto(sv, j as int)[k],
        decreases n - j,
    {
        let id = payload_id(&signals[j]);
        assert(sv[j as int] == payload_view(signals@[j as int]@));
        if id.as_str().unicode_len() != 0 {
            r.push(j);
        }
        j = j + 1;
    }
    r
}

} // verus!
