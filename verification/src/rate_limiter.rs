//! Limits how often operations on a key may run: at most a number of grants
//! within a sliding time window. Times are nanoseconds on the caller's clock.

use vstd::prelude::*;
use crate::text::{chars_of, chars_eq};
use crate::cache::fresh;

verus! {

/// A limit: at most `requests` grants within any `window`.
#[derive(Clone, Copy)]
pub struct RateLimit {
    /// Grants allowed within a window
    pub requests: usize,
    /// The window's length
    pub window: u128,
}

/// One minute.
pub const MINUTE: u128 = 60_000_000_000;

/// The limit of a key that has none of its own: 10 per minute.
pub open spec fn default_limit() -> RateLimit {
    RateLimit { requests: 10, window: MINUTE }
}

/// The grant times of `ts` that lie within `window` before `now`, in order.
pub open spec fn recent(ts: Seq<u128>, now: u128, window: u128) -> Seq<u128>
    decreases ts.len(),
{
    if ts.len() == 0 {
        ts
    } else if fresh(ts.last(), now, window) {
        recent(ts.drop_last(), now, window).push(ts.last())
    } else {
        recent(ts.drop_last(), now, window)
    }
}

/// Every time of `recent(ts, ..)` lies within the window.
pub proof fn lemma_recent_fresh(ts: Seq<u128>, now: u128, window: u128)
    ensures
        forall|i: int| 0 <= i < recent(ts, now, window).len() ==> fresh(#[trigger] recent(ts, now, window)[i], now, window),
        recent(ts, now, window).len() <= ts.len(),
    decreases ts.len(),
{
    if ts.len() > 0 {
        lemma_recent_fresh(ts.drop_last(), now, window);
    }
}

/// Limits the rate of operations per key.
pub struct RateLimiter {
    limits: Vec<(String, RateLimit)>,
    state: Vec<(String, Vec<u128>)>,
}

/// No key occurs twice among the pairs.
pub open spec fn unique_keys<V>(s: Seq<(String, V)>) -> bool {
    forall|i: int, j: int| 0 <= i < j < s.len() ==> s[i].0@ != s[j].0@
}

impl RateLimiter {
    /// The limit that applies to `key`.
    pub closed spec fn limit_of(&self, key: Seq<char>) -> RateLimit {
        if exists|i: int| 0 <= i < self.limits@.len() && #[trigger] self.limits@[i].0@ == key {
            self.limits@[choose|i: int| 0 <= i < self.limits@.len() && #[trigger] self.limits@[i].0@ == key].1
        } else {
            default_limit()
        }
    }

    /// The grant times recorded for `key`, oldest first.
    pub closed spec fn history(&self, key: Seq<char>) -> Seq<u128> {
        if exists|i: int| 0 <= i < self.state@.len() && #[trigger] self.state@[i].0@ == key {
            self.state@[choose|i: int| 0 <= i < self.state@.len() && #[trigger] self.state@[i].0@ == key].1@
        } else {
            Seq::empty()
        }
    }

    /// The limiter's internal consistency: each key is held once.
    pub closed spec fn wf(&self) -> bool {
        unique_keys(self.limits@) && unique_keys(self.state@)
    }

    /// A limiter with 60 grants a minute for `github`, 100 a minute for
    /// `pypi`, and no grants recorded.
    pub fn new() -> (r: Self)
        ensures
            r.wf(),
            r.limit_of("github"@) == (RateLimit { requests: 60, window: MINUTE }),
            r.limit_of("pypi"@) == (RateLimit { requests: 100, window: MINUTE }),
            forall|k: Seq<char>| k != "github"@ && k != "pypi"@ ==> #[trigger] r.limit_of(k) == default_limit(),
            forall|k: Seq<char>| #[trigger] r.history(k) == Seq::<u128>::empty(),
    {
        let mut limits: Vec<(String, RateLimit)> = Vec::new();
        limits.push((String::from_str("github"), RateLimit { requests: 60, window: MINUTE }));
        limits.push((String::from_str("pypi"), RateLimit { requests: 100, window: MINUTE }));
        let r = RateLimiter { limits, state: Vec::new() };
        proof {
            reveal_strlit("github");
            reveal_strlit("pypi");
            assert("github"@ != "pypi"@) by {
                assert("github"@[0] != "pypi"@[0]);
            }
            assert(r.limits@[0].0@ == "github"@);
            assert(r.limits@[1].0@ == "pypi"@);
            assert forall|k: Seq<char>| k != "github"@ && k != "pypi"@ implies #[trigger] r.limit_of(k) == default_limit() by {
                if exists|i: int| 0 <= i < r.limits@.len() && #[trigger] r.limits@[i].0@ == k {
                    let i = choose|i: int| 0 <= i < r.limits@.len() && #[trigger] r.limits@[i].0@ == k;
                    assert(i == 0 || i == 1);
                }
            }
        }
        r
    }

    fn find_limit(&self, key: &[char]) -> (r: Option<usize>)
        ensures
            match r {
                Some(i) => i < self.limits@.len() && self.limits@[i as int].0@ == key@,
                None => forall|i: int| 0 <= i < self.limits@.len() ==> #[trigger] self.limits@[i].0@ != key@,
            },
    {
        let mut i: usize = 0;
        while i < self.limits.len()
            invariant
                i <= self.limits@.len(),
                forall|j: int| 0 <= j < i ==> #[trigger] self.limits@[j].0@ != key@,
            decreases self.limits@.len() - i,
        {
            if chars_eq(&chars_of(self.limits[i].0.as_str()), key) {
                return Some(i);
            }
            i = i + 1;
        }
        None
    }

    fn find_state(&self, key: &[char]) -> (r: Option<usize>)
        ensures
            match r {
                Some(i) => i < self.state@.len() && self.state@[i as int].0@ == key@,
                None => forall|i: int| 0 <= i < self.state@.len() ==> #[trigger] self.state@[i].0@ != key@,
            },
    {
        let mut i: usize = 0;
        while i < self.state.len()
            invariant
                i <= self.state@.len(),
                forall|j: int| 0 <= j < i ==> #[trigger] self.state@[j].0@ != key@,
            decreases self.state@.len() - i,
        {
            if chars_eq(&chars_of(self.state[i].0.as_str()), key) {
                return Some(i);
            }
            i = i + 1;
        }
        None
    }

    /// The limit that applies to `key`.
    pub fn limit_for(&self, key: &str) -> (r: RateLimit)
        requires
            self.wf(),
        ensures
            r == self.limit_of(key@),
    {
        let k = chars_of(key);
        match self.find_limit(&k) {
            Some(i) => {
                proof {
                    let j = choose|j: int| 0 <= j < self.limits@.len() && #[trigger] self.limits@[j].0@ == key@;
                    assert(j == i);
                }
                self.limits[i].1
            },
            None => RateLimit { requests: 10, window: MINUTE },
        }
    }

    /// Sets the limit of `key` to `requests` grants within `window`.
    pub fn add_limit(&mut self, key: &str, requests: usize, window: u128)
        requires
            old(self).wf(),
        ensures
            final(self).wf(),
            final(self).limit_of(key@) == (RateLimit { requests, window }),
            forall|k: Seq<char>| k != key@ ==> #[trigger] final(self).limit_of(k) == old(self).limit_of(k),
            forall|k: Seq<char>| #[trigger] final(self).history(k) == old(self).history(k),
    {
        let ghost before = self.limits@;
        let k = chars_of(key);
        match self.find_limit(&k) {
            Some(i) => {
                self.limits.remove(i);
            },
            None => {},
        }
        let ghost mid = self.limits@;
        self.limits.push((String::from_str(key), RateLimit { requests, window }));
        proof {
            let after = self.limits@;
            assert(forall|j: int| 0 <= j < mid.len() ==> #[trigger] mid[j].0@ != key@);
            assert(unique_keys(after));
            assert(after[after.len() - 1].0@ == key@);
            let j = choose|j: int| 0 <= j < after.len() && #[trigger] after[j].0@ == key@;
            assert(j == after.len() - 1);
            assert forall|kk: Seq<char>| kk != key@ implies #[trigger] self.limit_of(kk) == old(self).limit_of(kk) by {
                let in_after = exists|j: int| 0 <= j < after.len() && #[trigger] after[j].0@ == kk;
                let in_before = exists|j: int| 0 <= j < before.len() && #[trigger] before[j].0@ == kk;
                if in_before {
                    let b = choose|j: int| 0 <= j < before.len() && #[trigger] before[j].0@ == kk;
                    let m = if exists|x: int| 0 <= x < mid.len() && mid[x] == before[b] {
                        choose|x: int| 0 <= x < mid.len() && mid[x] == before[b]
                    } else {
                        0
                    };
                    assert(exists|x: int| 0 <= x < mid.len() && mid[x] == before[b]) by {
                        if self.limits@.len() == before.len() + 1 {
                            assert(mid[b] == before[b]);
                        } else {
                            let ri = choose|ri: int| 0 <= ri < before.len() && before[ri].0@ == key@ && mid == before.remove(ri);
                            if b < ri {
                                assert(mid[b] == before[b]);
                            } else {
                                assert(mid[b - 1] == before[b]);
                            }
                        }
                    }
                    assert(after[m] == before[b]);
                    let a = choose|j: int| 0 <= j < after.len() && #[trigger] after[j].0@ == kk;
                    assert(a == m);
                }
                if in_after {
                    let a = choose|j: int| 0 <= j < after.len() && #[trigger] after[j].0@ == kk;
                    assert(a < mid.len());
                    assert(exists|x: int| 0 <= x < before.len() && before[x] == mid[a]) by {
                        if self.limits@.len() == before.len() + 1 {
                            assert(before[a] == mid[a]);
                        } else {
                            let ri = choose|ri: int| 0 <= ri < before.len() && before[ri].0@ == key@ && mid == before.remove(ri);
                            if a < ri {
                                assert(before[a] == mid[a]);
                            } else {
                                assert(before[a + 1] == mid[a]);
                            }
                        }
                    }
                }
            }
        }
    }

    /// Tries to grant an operation on `key` at `now`: forgets the grants that
    /// left the window, and grants when fewer than the limit remain, recording
    /// `now`. Other keys are untouched.
    pub fn try_acquire(&mut self, key: &str, now: u128) -> (granted: bool)
        requires
            old(self).wf(),
        ensures
            final(self).wf(),
            ({
                let lim = old(self).limit_of(key@);
                let kept = recent(old(self).history(key@), now, lim.window);
                &&& granted == (kept.len() < lim.requests)
                &&& granted ==> final(self).history(key@) == kept.push(now)
                &&& !granted ==> final(self).history(key@) == kept
            }),
            forall|k: Seq<char>| k != key@ ==> #[trigger] final(self).history(k) == old(self).history(k),
            forall|k: Seq<char>| #[trigger] final(self).limit_of(k) == old(self).limit_of(k),
    {
        let lim = self.limit_for(key);
        let k = chars_of(key);
        let ghost before = self.state@;
        let ghost h = self.history(key@);
        let old_ts: Vec<u128> = match self.find_state(&k) {
            Some(i) => {
                proof {
                    let j = choose|j: int| 0 <= j < before.len() && #[trigger] before[j].0@ == key@;
                    assert(j == i);
                }
                let (_name, ts) = self.state.remove(i);
                ts
            },
            None => Vec::new(),
        };
        assert(old_ts@ == h);
        let ghost mid = self.state@;
        let mut kept: Vec<u128> = Vec::new();
        let mut j: usize = 0;
        while j < old_ts.len()
            invariant
                j <= old_ts@.len(),
                kept@ == recent(old_ts@.take(j as int), now, lim.window),
            decreases old_ts@.len() - j,
        {
            assert(old_ts@.take(j + 1).drop_last() =~= old_ts@.take(j as int));
            let t = old_ts[j];
            let elapsed = if now > t { now - t } else { 0 };
            if elapsed < lim.window {
                kept.push(t);
            }
            j = j + 1;
        }
        assert(old_ts@.take(old_ts@.len() as int) =~= old_ts@);
        let granted = kept.len() < lim.requests;
        if granted {
            kept.push(now);
        }
        self.state.push((String::from_str(key), kept));
        proof {
            let after = self.state@;
            assert(forall|x: int| 0 <= x < mid.len() ==> #[trigger] mid[x].0@ != key@);
            assert(unique_keys(after));
            assert(after[after.len() - 1].0@ == key@);
            let a = choose|x: int| 0 <= x < after.len() && #[trigger] after[x].0@ == key@;
            assert(a == after.len() - 1);
            assert forall|kk: Seq<char>| kk != key@ implies #[trigger] self.history(kk) == old(self).history(kk) by {
                lemma_moved_entry(before, mid, after, key@, kk);
            }
            assert(self.limits == old(self).limits);
            assert forall|kk: Seq<char>| #[trigger] self.limit_of(kk) == old(self).limit_of(kk) by {}
        }
        granted
    }
}

/// Moving the entry of `key` to the end leaves every other key's entry as it was.
proof fn lemma_moved_entry(
    before: Seq<(String, Vec<u128>)>,
    mid: Seq<(String, Vec<u128>)>,
    after: Seq<(String, Vec<u128>)>,
    key: Seq<char>,
    kk: Seq<char>,
)
    requires
        unique_keys(before),
        (exists|ri: int| 0 <= ri < before.len() && before[ri].0@ == key && mid == before.remove(ri))
            || (mid == before && forall|x: int| 0 <= x < before.len() ==> #[trigger] before[x].0@ != key),
        after.len() == mid.len() + 1,
        forall|x: int| 0 <= x < mid.len() ==> #[trigger] after[x] == mid[x],
        after[mid.len() as int].0@ == key,
        unique_keys(after),
        kk != key,
    ensures
        (exists|i: int| 0 <= i < after.len() && #[trigger] after[i].0@ == kk) == (exists|i: int|
            0 <= i < before.len() && #[trigger] before[i].0@ == kk),
        (exists|i: int| 0 <= i < after.len() && #[trigger] after[i].0@ == kk) ==> after[choose|i: int|
            0 <= i < after.len() && #[trigger] after[i].0@ == kk].1@ == before[choose|i: int|
            0 <= i < before.len() && #[trigger] before[i].0@ == kk].1@,
{
    let removed = exists|ri: int| 0 <= ri < before.len() && before[ri].0@ == key && mid == before.remove(ri);
    if exists|i: int| 0 <= i < before.len() && #[trigger] before[i].0@ == kk {
        let b = choose|i: int| 0 <= i < before.len() && #[trigger] before[i].0@ == kk;
        let m = if removed {
            let ri = choose|ri: int| 0 <= ri < before.len() && before[ri].0@ == key && mid == before.remove(ri);
            if b < ri {
                b
            } else {
                b - 1
            }
        } else {
            b
        };
        assert(mid[m] == before[b]);
        assert(after[m].0@ == kk);
        let a = choose|i: int| 0 <= i < after.len() && #[trigger] after[i].0@ == kk;
        assert(a == m);
    }
    if exists|i: int| 0 <= i < after.len() && #[trigger] after[i].0@ == kk {
        let a = choose|i: int| 0 <= i < after.len() && #[trigger] after[i].0@ == kk;
        assert(a < mid.len());
        let b = if removed {
            let ri = choose|ri: int| 0 <= ri < before.len() && before[ri].0@ == key && mid == before.remove(ri);
            if a < ri {
                a
            } else {
                a + 1
            }
        } else {
            a
        };
        assert(before[b] == mid[a]);
        assert(before[b].0@ == kk);
    }
}

/// A granted operation never brings the grants recorded for its key within
/// the window above the key's limit: after a grant at `now`, the recorded
/// times all lie within the window and number at most the limit.
pub proof fn law_grants_stay_within_limit(history: Seq<u128>, now: u128, lim: RateLimit)
    requires
        recent(history, now, lim.window).len() < lim.requests,
        lim.window > 0,
    ensures
        recent(history, now, lim.window).push(now).len() <= lim.requests,
        forall|i: int|
            0 <= i < recent(history, now, lim.window).push(now).len() ==> fresh(
                #[trigger] recent(history, now, lim.window).push(now)[i],
                now,
                lim.window,
            ),
{
    lemma_recent_fresh(history, now, lim.window);
    let r = recent(history, now, lim.window);
    assert forall|i: int| 0 <= i < r.push(now).len() implies fresh(#[trigger] r.push(now)[i], now, lim.window) by {
        if i < r.len() {
            assert(r.push(now)[i] == r[i]);
        }
    }
}

/// An operation is refused only when the limit's number of grants already
/// lies within the window.
pub proof fn law_refusal_is_justified(history: Seq<u128>, now: u128, lim: RateLimit)
    requires
        !(recent(history, now, lim.window).len() < lim.requests),
    ensures
        recent(history, now, lim.window).len() >= lim.requests,
        forall|i: int|
            0 <= i < recent(history, now, lim.window).len() ==> fresh(#[trigger] recent(history, now, lim.window)[i], now, lim.window),
{
    lemma_recent_fresh(history, now, lim.window);
}

} // verus!
