//! Named counters, timings and gauges collected while the service runs.
//!
//! A timing is held in nanoseconds; a gauge is held as the bit pattern of
//! its `f64` value (`f64::to_bits`), which is stored and handed back as it is.

use vstd::prelude::*;
use crate::text::{chars_of, chars_eq};

verus! {

/// The map that a list of `(key, value)` pairs stands for.
pub open spec fn pairs_map<V>(s: Seq<(String, V)>) -> Map<Seq<char>, V>
    decreases s.len(),
{
    if s.len() == 0 {
        Map::empty()
    } else {
        pairs_map(s.drop_last()).insert(s.last().0@, s.last().1)
    }
}

/// No key occurs twice.
pub open spec fn distinct_pair_keys<V>(s: Seq<(String, V)>) -> bool {
    forall|i: int, j: int| 0 <= i < j < s.len() ==> s[i].0@ != s[j].0@
}

proof fn lemma_pairs_dom<V>(s: Seq<(String, V)>)
    ensures
        pairs_map(s).dom().finite(),
        forall|k: Seq<char>| pairs_map(s).contains_key(k) <==> exists|i: int| 0 <= i < s.len() && #[trigger] s[i].0@ == k,
    decreases s.len(),
{
    if s.len() > 0 {
        lemma_pairs_dom(s.drop_last());
        assert forall|k: Seq<char>| pairs_map(s).contains_key(k) implies exists|i: int|
            0 <= i < s.len() && #[trigger] s[i].0@ == k by {
            if k != s.last().0@ {
                let i = choose|i: int| 0 <= i < s.drop_last().len() && #[trigger] s.drop_last()[i].0@ == k;
                assert(s[i].0@ == k);
            } else {
                assert(s[s.len() - 1].0@ == k);
            }
        }
        assert forall|k: Seq<char>| (exists|i: int| 0 <= i < s.len() && #[trigger] s[i].0@ == k) implies pairs_map(
            s,
        ).contains_key(k) by {
            let i = choose|i: int| 0 <= i < s.len() && #[trigger] s[i].0@ == k;
            if i < s.len() - 1 {
                assert(s.drop_last()[i].0@ == k);
            }
        }
    }
}

proof fn lemma_pairs_at<V>(s: Seq<(String, V)>, i: int)
    requires
        distinct_pair_keys(s),
        0 <= i < s.len(),
    ensures
        pairs_map(s).contains_key(s[i].0@),
        pairs_map(s)[s[i].0@] == s[i].1,
    decreases s.len(),
{
    if i < s.len() - 1 {
        lemma_pairs_at(s.drop_last(), i);
        assert(s.drop_last()[i] == s[i]);
    }
}

proof fn lemma_pairs_equal<V>(s: Seq<(String, V)>, m: Map<Seq<char>, V>)
    requires
        distinct_pair_keys(s),
        forall|k: Seq<char>| m.contains_key(k) <==> exists|i: int| 0 <= i < s.len() && #[trigger] s[i].0@ == k,
        forall|i: int| 0 <= i < s.len() ==> #[trigger] m[s[i].0@] == s[i].1,
    ensures
        pairs_map(s) == m,
{
    lemma_pairs_dom(s);
    assert forall|k: Seq<char>| #[trigger] pairs_map(s).contains_key(k) implies pairs_map(s)[k] == m[k] by {
        let i = choose|i: int| 0 <= i < s.len() && #[trigger] s[i].0@ == k;
        lemma_pairs_at(s, i);
    }
    assert(pairs_map(s) =~= m);
}

/// Values of a copyable type kept by name.
struct Table<V> {
    entries: Vec<(String, V)>,
}

impl<V: Copy> Table<V> {
    closed spec fn view(&self) -> Map<Seq<char>, V> {
        pairs_map(self.entries@)
    }

    closed spec fn wf(&self) -> bool {
        distinct_pair_keys(self.entries@)
    }

    fn new() -> (t: Self)
        ensures
            t.wf(),
            t@ == Map::<Seq<char>, V>::empty(),
    {
        let t = Table { entries: Vec::new() };
        assert(t@ =~= Map::<Seq<char>, V>::empty());
        t
    }

    fn find(&self, key: &str) -> (r: Option<usize>)
        ensures
            match r {
                Some(i) => i < self.entries@.len() && self.entries@[i as int].0@ == key@,
                None => forall|i: int| 0 <= i < self.entries@.len() ==> #[trigger] self.entries@[i].0@ != key@,
            },
    {
        let k = chars_of(key);
        let mut i: usize = 0;
        while i < self.entries.len()
            invariant
                i <= self.entries@.len(),
                k@ == key@,
                forall|j: int| 0 <= j < i ==> #[trigger] self.entries@[j].0@ != key@,
            decreases self.entries@.len() - i,
        {
            if chars_eq(&chars_of(self.entries[i].0.as_str()), &k) {
                return Some(i);
            }
            i = i + 1;
        }
        None
    }

    fn get(&self, key: &str) -> (r: Option<V>)
        requires
            self.wf(),
        ensures
            r == self@.get(key@),
    {
        proof {
            lemma_pairs_dom(self.entries@);
        }
        match self.find(key) {
            Some(i) => {
                proof {
                    lemma_pairs_at(self.entries@, i as int);
                }
                Some(self.entries[i].1)
            },
            None => None,
        }
    }

    fn put(&mut self, key: &str, value: V)
        requires
            old(self).wf(),
        ensures
            final(self).wf(),
            final(self)@ == old(self)@.insert(key@, value),
    {
        let ghost before = self.entries@;
        let ghost m = pairs_map(before).insert(key@, value);
        proof {
            lemma_pairs_dom(before);
        }
        match self.find(key) {
            Some(i) => {
                self.entries.set(i, (String::from_str(key), value));
                proof {
                    let s = self.entries@;
                    assert forall|k: Seq<char>| m.contains_key(k) <==> exists|j: int|
                        0 <= j < s.len() && #[trigger] s[j].0@ == k by {
                        if m.contains_key(k) && k != key@ {
                            let j = choose|j: int| 0 <= j < before.len() && #[trigger] before[j].0@ == k;
                            assert(s[j].0@ == k);
                        }
                        if m.contains_key(k) && k == key@ {
                            assert(s[i as int].0@ == k);
                        }
                        if exists|j: int| 0 <= j < s.len() && #[trigger] s[j].0@ == k {
                            let j = choose|j: int| 0 <= j < s.len() && #[trigger] s[j].0@ == k;
                            if j != i {
                                assert(before[j].0@ == k);
                            }
                        }
                    }
                    assert forall|j: int| 0 <= j < s.len() implies #[trigger] m[s[j].0@] == s[j].1 by {
                        if j != i {
                            lemma_pairs_at(before, j);
                        }
                    }
                    lemma_pairs_equal(s, m);
                }
            },
            None => {
                self.entries.push((String::from_str(key), value));
                proof {
                    assert(self.entries@.drop_last() =~= before);
                }
            },
        }
    }
}

/// Collects and tracks application metrics.
pub struct Metrics {
    counters: Table<u64>,
    timers: Table<u128>,
    gauges: Table<u64>,
}

/// The value of a counter: what is stored, or 0 when nothing is.
pub open spec fn count_of(m: Map<Seq<char>, u64>, key: Seq<char>) -> u64 {
    if m.contains_key(key) {
        m[key]
    } else {
        0
    }
}

impl Metrics {
    /// The counters held, by name.
    pub closed spec fn counters(&self) -> Map<Seq<char>, u64> {
        self.counters@
    }

    /// The timings held, by name, in nanoseconds.
    pub closed spec fn timers(&self) -> Map<Seq<char>, u128> {
        self.timers@
    }

    /// The gauges held, by name, as `f64` bit patterns.
    pub closed spec fn gauges(&self) -> Map<Seq<char>, u64> {
        self.gauges@
    }

    /// The collector's internal consistency: each name is held once per kind.
    pub closed spec fn wf(&self) -> bool {
        self.counters.wf() && self.timers.wf() && self.gauges.wf()
    }

    /// A collector that holds nothing.
    pub fn new() -> (m: Self)
        ensures
            m.wf(),
            m.counters() == Map::<Seq<char>, u64>::empty(),
            m.timers() == Map::<Seq<char>, u128>::empty(),
            m.gauges() == Map::<Seq<char>, u64>::empty(),
    {
        Metrics { counters: Table::new(), timers: Table::new(), gauges: Table::new() }
    }

    /// Adds one to counter `key`, which starts at 0. A counter at `u64::MAX`
    /// cannot be increased.
    pub fn increment(&mut self, key: &str)
        requires
            old(self).wf(),
            count_of(old(self).counters(), key@) < u64::MAX,
        ensures
            final(self).wf(),
            final(self).counters() == old(self).counters().insert(key@, (count_of(old(self).counters(), key@) + 1) as u64),
            final(self).timers() == old(self).timers(),
            final(self).gauges() == old(self).gauges(),
    {
        let c = match self.counters.get(key) {
            Some(v) => v,
            None => 0,
        };
        self.counters.put(key, c + 1);
    }

    /// Takes one from counter `key`, which starts at 0 and never goes below
    /// it; the counter is recorded either way.
    pub fn decrement(&mut self, key: &str)
        requires
            old(self).wf(),
        ensures
            final(self).wf(),
            final(self).counters() == old(self).counters().insert(
                key@,
                if count_of(old(self).counters(), key@) > 0 {
                    (count_of(old(self).counters(), key@) - 1) as u64
                } else {
                    0u64
                },
            ),
            final(self).timers() == old(self).timers(),
            final(self).gauges() == old(self).gauges(),
    {
        let c = match self.counters.get(key) {
            Some(v) => v,
            None => 0,
        };
        let n = if c > 0 {
            c - 1
        } else {
            0
        };
        self.counters.put(key, n);
    }

    /// Records timing `nanos` under `key`, replacing an earlier one.
    pub fn record_time(&mut self, key: &str, nanos: u128)
        requires
            old(self).wf(),
        ensures
            final(self).wf(),
            final(self).timers() == old(self).timers().insert(key@, nanos),
            final(self).counters() == old(self).counters(),
            final(self).gauges() == old(self).gauges(),
    {
        self.timers.put(key, nanos);
    }

    /// Sets gauge `key` to the value with bit pattern `bits`.
    pub fn set_gauge(&mut self, key: &str, bits: u64)
        requires
            old(self).wf(),
        ensures
            final(self).wf(),
            final(self).gauges() == old(self).gauges().insert(key@, bits),
            final(self).counters() == old(self).counters(),
            final(self).timers() == old(self).timers(),
    {
        self.gauges.put(key, bits);
    }

    /// The value of counter `key`, when it has been touched.
    pub fn get_counter(&self, key: &str) -> (r: Option<u64>)
        requires
            self.wf(),
        ensures
            r == self.counters().get(key@),
    {
        self.counters.get(key)
    }

    /// The timing recorded under `key`, in nanoseconds.
    pub fn get_timer(&self, key: &str) -> (r: Option<u128>)
        requires
            self.wf(),
        ensures
            r == self.timers().get(key@),
    {
        self.timers.get(key)
    }

    /// The bit pattern of gauge `key`.
    pub fn get_gauge(&self, key: &str) -> (r: Option<u64>)
        requires
            self.wf(),
        ensures
            r == self.gauges().get(key@),
    {
        self.gauges.get(key)
    }
}

} // verus!
