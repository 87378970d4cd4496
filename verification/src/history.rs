//! Keyed tables of text keys, and the per-generator value history shown by
//! the oscilloscope.
use vstd::prelude::*;
use vstd::string::*;
use crate::api::HISTORY_CAP;
use crate::text::str_eq;
use std::collections::VecDeque;

verus! {

/// `i` is the first entry of `s` with key `k`.
pub open spec fn is_first_key<T>(s: Seq<(Seq<char>, T)>, k: Seq<char>, i: int) -> bool {
    &&& 0 <= i < s.len()
    &&& s[i].0 == k
    &&& forall|q: int| 0 <= q < i ==> s[q].0 != k
}

/// The first entry of `s` with key `k`, if any.
pub open spec fn first_key<T>(s: Seq<(Seq<char>, T)>, k: Seq<char>) -> Option<int> {
    if exists|i: int| is_first_key(s, k, i) {
        Some(choose|i: int| is_first_key(s, k, i))
    } else {
        None
    }
}

/// The value stored under key `k`: that of its first entry.
pub open spec fn lookup<T>(s: Seq<(Seq<char>, T)>, k: Seq<char>) -> Option<T> {
    match first_key(s, k) {
        Some(i) => Some(s[i].1),
        None => None,
    }
}

/// The first entry with a key is unique.
pub proof fn lemma_first_key_unique<T>(s: Seq<(Seq<char>, T)>, k: Seq<char>, i: int)
    requires
        is_first_key(s, k, i),
    ensures
        first_key(s, k) == Some(i),
{
    let j = choose|j: int| is_first_key(s, k, j);
    assert(is_first_key(s, k, j));
    if j < i {
        assert(s[j].0 != k);
    } else if i < j {
        assert(s[i].0 != k);
    }
}

/// When some entry has key `k`, a first one has.
pub proof fn lemma_first_key_exists<T>(s: Seq<(Seq<char>, T)>, k: Seq<char>, i: int)
    requires
        0 <= i < s.len(),
        s[i].0 == k,
    ensures
        first_key(s, k) is Some,
    decreases i,
{
    if exists|q: int| 0 <= q < i && s[q].0 == k {
        let q = choose|q: int| 0 <= q < i && s[q].0 == k;
        lemma_first_key_exists(s, k, q);
    } else {
        assert(is_first_key(s, k, i));
    }
}

/// Replacing the value of the first entry with key `k`, or appending an
/// entry for `k`, makes `v` the value under `k` and leaves every other key's
/// value as it was.
pub proof fn lemma_lookup_after_store<T>(s: Seq<(Seq<char>, T)>, k: Seq<char>, v: T, j: Seq<char>)
    ensures
        ({
            let t = match first_key(s, k) {
                Some(i) => s.update(i, (k, v)),
                None => s.push((k, v)),
            };
            &&& lookup(t, k) == Some(v)
            &&& j != k ==> lookup(t, j) == lookup(s, j)
        }),
{
    let t = match first_key(s, k) {
        Some(i) => s.update(i, (k, v)),
        None => s.push((k, v)),
    };
    match first_key(s, k) {
        Some(i) => {
            assert(is_first_key(s, k, i));
            assert(is_first_key(t, k, i));
            lemma_first_key_unique(t, k, i);
        },
        None => {
            assert forall|q: int| 0 <= q < s.len() implies s[q].0 != k by {
                if s[q].0 == k {
                    lemma_first_key_exists(s, k, q);
                }
            }
            assert(is_first_key(t, k, s.len() as int));
            lemma_first_key_unique(t, k, s.len() as int);
        },
    }
    if j != k {
        match first_key(s, j) {
            Some(a) => {
                assert(is_first_key(s, j, a));
                assert(is_first_key(t, j, a));
                lemma_first_key_unique(t, j, a);
            },
            None => {
                assert forall|q: int| !is_first_key(t, j, q) by {
                    if is_first_key(t, j, q) {
                        assert(q < s.len());
                        lemma_first_key_exists(s, j, q);
                        assert(is_first_key(s, j, q));
                    }
                }
            },
        }
    }
}

/// No key occurs twice in `s`.
pub open spec fn distinct_keys<T>(s: Seq<(Seq<char>, T)>) -> bool {
    forall|a: int, b: int| 0 <= a < b < s.len() ==> s[a].0 != s[b].0
}

/// Without an entry for `k`, no entry has key `k`.
pub proof fn lemma_no_first_key<T>(s: Seq<(Seq<char>, T)>, k: Seq<char>)
    requires
        first_key(s, k) is None,
    ensures
        forall|q: int| 0 <= q < s.len() ==> s[q].0 != k,
{
    assert forall|q: int| 0 <= q < s.len() implies s[q].0 != k by {
        if s[q].0 == k {
            lemma_first_key_exists(s, k, q);
        }
    }
}

/// The text keys of `entries`, paired with their values.
pub open spec fn keyed<T>(entries: Seq<(String, T)>) -> Seq<(Seq<char>, T)> {
    entries.map_values(|e: (String, T)| (e.0@, e.1))
}

/// Position of the first entry with key `k`.
pub fn find_key<T>(entries: &Vec<(String, T)>, k: &str) -> (r: Option<usize>)
    ensures
        r matches Some(i) ==> first_key(keyed(entries@), k@) == Some(i as int),
        r is None ==> first_key(keyed(entries@), k@) is None,
{
    let n = entries.len();
    let mut i: usize = 0;
    while i < n
        invariant
            n == entries@.len(),
            i <= n,
            forall|q: int| 0 <= q < i ==> keyed(entries@)[q].0 != k@,
        decreases n - i,
    {
        if str_eq(entries[i].0.as_str(), k) {
            assert(is_first_key(keyed(entries@), k@, i as int));
            proof {
                lemma_first_key_unique(keyed(entries@), k@, i as int);
            }
            return Some(i);
        }
        i = i + 1;
    }
    None
}

/// The points of a series after `p` is added: the newest `HISTORY_CAP` points.
pub open spec fn appended<T>(s: Seq<T>, p: T) -> Seq<T> {
    if s.len() + 1 > HISTORY_CAP {
        s.push(p).drop_first()
    } else {
        s.push(p)
    }
}

/// The value history of each generator: its points, oldest first.  Each
/// generator has at most one series, of at most `HISTORY_CAP` points.
pub struct SignalHistory<T> {
    series: Vec<(String, VecDeque<T>)>,
}

/// The series of a history, keyed by generator id, with their points.
pub open spec fn series_view<T>(series: Seq<(String, VecDeque<T>)>) -> Seq<(Seq<char>, Seq<T>)> {
    series.map_values(|e: (String, VecDeque<T>)| (e.0@, e.1@))
}

impl<T> SignalHistory<T> {
    #[verifier::type_invariant]
    spec fn one_series_each(self) -> bool {
        &&& distinct_keys(series_view(self.series@))
        &&& forall|i: int| 0 <= i < self.series@.len() ==> (#[trigger] self.series@[i]).1@.len() <= HISTORY_CAP
    }

    /// The recorded series, by generator id.
    pub closed spec fn view_series(self) -> Seq<(Seq<char>, Seq<T>)> {
        series_view(self.series@)
    }

    /// The points recorded for generator `id`, if any.
    pub open spec fn points_of(self, id: Seq<char>) -> Option<Seq<T>> {
        lookup(self.view_series(), id)
    }

    /// No series holds more than `HISTORY_CAP` points.
    pub open spec fn within_cap(self) -> bool {
        forall|id: Seq<char>| #[trigger] self.points_of(id) is Some ==> self.points_of(id)->0.len() <= HISTORY_CAP
    }

    /// An empty history.
    pub fn new() -> (h: Self)
        ensures
            forall|id: Seq<char>| h.points_of(id) is None,
            h.within_cap(),
    {
        let h = SignalHistory { series: Vec::new() };
        assert(h.view_series() =~= Seq::<(Seq<char>, Seq<T>)>::empty());
        h
    }

    /// Record point `p` for generator `id`: it becomes the newest point of
    /// that generator's series, of which the newest `HISTORY_CAP` are kept.
    /// Every other generator's series is unchanged.
    pub fn record(&mut self, id: &str, p: T)
        ensures
            final(self).points_of(id@) == Some(
                appended(
                    match old(self).points_of(id@) {
                        Some(s) => s,
                        None => Seq::<T>::empty(),
                    },
                    p,
                ),
            ),
            forall|other: Seq<char>| other != id@ ==> final(self).points_of(other) == old(self).points_of(other),
            final(self).within_cap(),
    {
        proof {
            use_type_invariant(&*self);
        }
        let ghost before = series_view(self.series@);
        let found = self.position(id);
        let ghost old_points = match lookup(before, id@) {
            Some(s) => s,
            None => Seq::<T>::empty(),
        };
        match found {
            Some(i) => {
                let mut series = Vec::new();
                std::mem::swap(&mut series, &mut self.series);
                assert(series@[i as int].1@.len() <= HISTORY_CAP);
                let ghost before_series = series@;
                let (k, mut points) = series.remove(i);
                points.push_back(p);
                if points.len() > HISTORY_CAP {
                    points.pop_front();
                }
                let ghost new_points = points@;
                assert(new_points =~= appended(old_points, p));
                series.insert(i, (k, points));
                assert(series_view(series@) =~= before.update(i as int, (id@, new_points)));
                assert forall|q: int| 0 <= q < series@.len() implies (#[trigger] series@[q]).1@.len() <= HISTORY_CAP by {
                    if q != i {
                        assert(series@[q] == before_series[q]);
                    }
                }
                proof {
                    assert(is_first_key(before, id@, i as int));
                    lemma_lookup_after_store(before, id@, new_points, id@);
                    assert forall|other: Seq<char>| other != id@ implies lookup(series_view(series@), other)
                        == lookup(before, other) by {
                        lemma_lookup_after_store(before, id@, new_points, other);
                    }
                }
                self.series = series;
            },
            None => {
                let mut points: VecDeque<T> = VecDeque::new();
                points.push_back(p);
                let ghost new_points = points@;
                assert(new_points =~= appended(old_points, p));
                proof {
                    lemma_no_first_key(before, id@);
                }
                let mut series = Vec::new();
                std::mem::swap(&mut series, &mut self.series);
                let ghost before_series = series@;
                series.push((String::from_str(id), points));
                assert(series_view(series@) =~= before.push((id@, new_points)));
                assert forall|q: int| 0 <= q < series@.len() implies (#[trigger] series@[q]).1@.len() <= HISTORY_CAP by {
                    if q < before_series.len() {
                        assert(series@[q] == before_series[q]);
                    }
                }
                proof {
                    lemma_lookup_after_store(before, id@, new_points, id@);
                    assert forall|other: Seq<char>| other != id@ implies lookup(series_view(series@), other)
                        == lookup(before, other) by {
                        lemma_lookup_after_store(before, id@, new_points, other);
                    }
                }
                self.series = series;
            },
        }
        proof {
            use_type_invariant(&*self);
            self.lemma_within_cap();
        }
    }

    /// The bound on every series, from the type invariant's bound by position.
    proof fn lemma_within_cap(self)
        requires
            forall|i: int| 0 <= i < self.series@.len() ==> (#[trigger] self.series@[i]).1@.len() <= HISTORY_CAP,
        ensures
            self.within_cap(),
    {
        let sv = series_view(self.series@);
        assert forall|id: Seq<char>| #[trigger] self.points_of(id) is Some implies self.points_of(id)->0.len()
            <= HISTORY_CAP by {
            if let Some(i) = first_key(sv, id) {
                assert(is_first_key(sv, id, i));
                assert(sv[i].1 == self.series@[i].1@);
            }
        }
    }

    /// Position of the series of generator `id`.
    fn position(&self, id: &str) -> (r: Option<usize>)
        ensures
            r matches Some(i) ==> first_key(series_view(self.series@), id@) == Some(i as int),
            r is None ==> first_key(series_view(self.series@), id@) is None,
    {
        let ghost sv = series_view(self.series@);
        let n = self.series.len();
        let mut i: usize = 0;
        while i < n
            invariant
                n == self.series@.len(),
                sv == series_view(self.series@),
                i <= n,
                forall|q: int| 0 <= q < i ==> sv[q].0 != id@,
            decreases n - i,
        {
            if str_eq(self.series[i].0.as_str(), id) {
                assert(is_first_key(sv, id@, i as int));
                proof {
                    lemma_first_key_unique(sv, id@, i as int);
                }
                return Some(i);
            }
            i = i + 1;
        }
        None
    }

    /// The points recorded for generator `id`, oldest first.
    pub fn points(&self, id: &str) -> (r: Option<&VecDeque<T>>)
        ensures
            r matches Some(v) ==> self.points_of(id@) == Some(v@) && v@.len() <= HISTORY_CAP,
            r is None ==> self.points_of(id@) is None,
            self.within_cap(),
    {
        proof {
            use_type_invariant(self);
            self.lemma_within_cap();
        }
        match self.position(id) {
            Some(i) => Some(&self.series[i].1),
            None => None,
        }
    }
}

/// Keys that agree position by position have the same first entries.
pub proof fn lemma_same_keys_same_first<A, B>(s: Seq<(Seq<char>, A)>, t: Seq<(Seq<char>, B)>, k: Seq<char>)
    requires
        s.len() == t.len(),
        forall|r: int| 0 <= r < s.len() ==> s[r].0 == t[r].0,
    ensures
        first_key(s, k) == first_key(t, k),
{
    if exists|i: int| is_first_key(s, k, i) {
        let i = choose|i: int| is_first_key(s, k, i);
        assert(is_first_key(t, k, i));
        lemma_first_key_unique(s, k, i);
        lemma_first_key_unique(t, k, i);
    } else {
        assert forall|i: int| !is_first_key(t, k, i) by {
            if is_first_key(t, k, i) {
                assert(is_first_key(s, k, i));
            }
        }
    }
}

/// A series of at most `HISTORY_CAP` points still holds at most that many after a point is added.
pub proof fn lemma_appended_bounded<T>(s: Seq<T>, p: T)
    requires
        s.len() <= HISTORY_CAP,
    ensures
        appended(s, p).len() <= HISTORY_CAP,
        appended(s, p).last() == p,
{
}

/// Index of the first of the newest `limit` points of a series of `len` points.
pub fn window_start(len: usize, limit: usize) -> (start: usize)
    ensures
        start == if len > limit { len - limit } else { 0 },
{
    if len > limit {
        len - limit
    } else {
        0
    }
}

} // verus!
