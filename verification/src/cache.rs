//! Caches: a file cache whose entries expire, and in-memory caches keyed by
//! text whose entries expire a fixed time after they were stored.
//!
//! Times are nanoseconds: points in time on the clock the caller reads, and
//! durations between them.

use vstd::prelude::*;
use crate::bindings::{path_join, join_path, path_with_extension, with_extension, utc_now_rfc3339};
use crate::text::{push_char, chars_of, chars_eq};

verus! {

/// The character a cache file name uses in place of `c`.
pub open spec fn key_char(c: char) -> char {
    if c == '/' || c == ':' || c == '?' || c == '&' || c == '=' {
        '_'
    } else {
        c
    }
}

/// A cache key made safe as a file name: `/ : ? & =` become `_`.
pub open spec fn safe_key(key: Seq<char>) -> Seq<char> {
    Seq::new(key.len(), |i: int| key_char(key[i]))
}

/// Executable `safe_key`.
pub fn safe_key_of(key: &str) -> (r: String)
    ensures
        r@ == safe_key(key@),
{
    let v = chars_of(key);
    let mut out = String::new();
    let mut i: usize = 0;
    while i < v.len()
        invariant
            i <= v@.len(),
            v@ == key@,
            out@ == safe_key(key@).take(i as int),
        decreases v@.len() - i,
    {
        let c = v[i];
        let d = if c == '/' || c == ':' || c == '?' || c == '&' || c == '=' {
            '_'
        } else {
            c
        };
        push_char(&mut out, d);
        assert(safe_key(key@).take(i + 1) =~= safe_key(key@).take(i as int).push(d));
        i = i + 1;
    }
    assert(safe_key(key@).take(v@.len() as int) =~= safe_key(key@));
    out
}

/// A single entry of the file cache.
pub struct CacheEntry {
    /// The URL or identifier of the entry
    pub url: String,
    /// The file holding the cached content
    pub path: String,
    /// When the entry was stored
    pub timestamp: u128,
    /// How long the entry stays valid
    pub ttl: u128,
}

/// Whether an entry stored at `stored` with lifetime `ttl` has expired at
/// `now`: more than `ttl` has passed (none has when `now` is earlier).
pub open spec fn expired(stored: u128, ttl: u128, now: u128) -> bool {
    now > stored && now - stored > ttl
}

impl CacheEntry {
    /// Whether the entry has expired at `now`.
    pub fn is_expired(&self, now: u128) -> (b: bool)
        ensures
            b == expired(self.timestamp, self.ttl, now),
    {
        now > self.timestamp && now - self.timestamp > self.ttl
    }
}

/// A file-based cache for downloaded or generated content.
pub struct FileCache {
    /// The directory holding the cached files
    pub cache_dir: String,
    /// The lifetime of an entry stored without its own
    pub default_ttl: u128,
}

impl FileCache {
    /// A cache in `cache_dir` whose entries live `default_ttl` unless told otherwise.
    pub fn new(cache_dir: &str, default_ttl: u128) -> (r: Self)
        ensures
            r.cache_dir@ == cache_dir@,
            r.default_ttl == default_ttl,
    {
        FileCache { cache_dir: String::from_str(cache_dir), default_ttl }
    }

    /// The file holding the content for `key`.
    pub fn get_path(&self, key: &str) -> (r: String)
        ensures
            r@ == path_join(self.cache_dir@, safe_key(key@)),
    {
        let safe = safe_key_of(key);
        join_path(self.cache_dir.as_str(), safe.as_str())
    }

    /// The file holding the entry record for `key`.
    pub fn get_meta_path(&self, key: &str) -> (r: String)
        ensures
            r@ == path_with_extension(path_join(self.cache_dir@, safe_key(key@)), "meta"@),
    {
        let p = self.get_path(key);
        proof {
            reveal_strlit("meta");
        }
        with_extension(p.as_str(), "meta")
    }

    /// The record written when `key` is stored at `now`, with lifetime `ttl`
    /// or the cache's default.
    pub fn entry_for(&self, key: &str, now: u128, ttl: Option<u128>) -> (e: CacheEntry)
        ensures
            e.url@ == key@,
            e.path@ == path_join(self.cache_dir@, safe_key(key@)),
            e.timestamp == now,
            e.ttl == match ttl {
                Some(t) => t,
                None => self.default_ttl,
            },
    {
        CacheEntry {
            url: String::from_str(key),
            path: self.get_path(key),
            timestamp: now,
            ttl: match ttl {
                Some(t) => t,
                None => self.default_ttl,
            },
        }
    }
}

/// Whether an entry stored at `stored` is still fresh at `now` for lifetime
/// `ttl`: less than `ttl` has passed (no time has when `now` is earlier).
pub open spec fn fresh(stored: u128, now: u128, ttl: u128) -> bool {
    (if now > stored {
        now - stored
    } else {
        0
    }) < ttl
}

/// The map that a list of `(key, value, stored at)` entries stands for.
pub open spec fn entries_map<T>(s: Seq<(String, T, u128)>) -> Map<Seq<char>, (T, u128)>
    decreases s.len(),
{
    if s.len() == 0 {
        Map::empty()
    } else {
        entries_map(s.drop_last()).insert(s.last().0@, (s.last().1, s.last().2))
    }
}

/// No key occurs twice.
pub open spec fn distinct_keys<T>(s: Seq<(String, T, u128)>) -> bool {
    forall|i: int, j: int| 0 <= i < j < s.len() ==> s[i].0@ != s[j].0@
}

proof fn lemma_entries_dom<T>(s: Seq<(String, T, u128)>)
    ensures
        entries_map(s).dom().finite(),
        forall|k: Seq<char>|
            entries_map(s).contains_key(k) <==> exists|i: int| 0 <= i < s.len() && #[trigger] s[i].0@ == k,
    decreases s.len(),
{
    if s.len() > 0 {
        lemma_entries_dom(s.drop_last());
        assert forall|k: Seq<char>|
            entries_map(s).contains_key(k) implies exists|i: int| 0 <= i < s.len() && #[trigger] s[i].0@ == k by {
            if k != s.last().0@ {
                let i = choose|i: int| 0 <= i < s.drop_last().len() && #[trigger] s.drop_last()[i].0@ == k;
                assert(s[i].0@ == k);
            } else {
                assert(s[s.len() - 1].0@ == k);
            }
        }
        assert forall|k: Seq<char>|
            (exists|i: int| 0 <= i < s.len() && #[trigger] s[i].0@ == k) implies entries_map(s).contains_key(k) by {
            let i = choose|i: int| 0 <= i < s.len() && #[trigger] s[i].0@ == k;
            if i < s.len() - 1 {
                assert(s.drop_last()[i].0@ == k);
            }
        }
    }
}

proof fn lemma_entries_at<T>(s: Seq<(String, T, u128)>, i: int)
    requires
        distinct_keys(s),
        0 <= i < s.len(),
    ensures
        entries_map(s).contains_key(s[i].0@),
        entries_map(s)[s[i].0@] == (s[i].1, s[i].2),
    decreases s.len(),
{
    if i < s.len() - 1 {
        lemma_entries_at(s.drop_last(), i);
        assert(s.drop_last()[i] == s[i]);
    }
}

proof fn lemma_entries_len<T>(s: Seq<(String, T, u128)>)
    requires
        distinct_keys(s),
    ensures
        entries_map(s).len() == s.len(),
    decreases s.len(),
{
    if s.len() > 0 {
        lemma_entries_len(s.drop_last());
        lemma_entries_dom(s.drop_last());
        if entries_map(s.drop_last()).contains_key(s.last().0@) {
            let i = choose|i: int| 0 <= i < s.drop_last().len() && #[trigger] s.drop_last()[i].0@ == s.last().0@;
            assert(s[i].0@ == s[s.len() - 1].0@);
        }
    }
}

/// The map of `s` agrees with `m` when both hold the same keys and every
/// entry of `s` is found in `m`.
proof fn lemma_entries_equal<T>(s: Seq<(String, T, u128)>, m: Map<Seq<char>, (T, u128)>)
    requires
        distinct_keys(s),
        forall|k: Seq<char>| m.contains_key(k) <==> exists|i: int| 0 <= i < s.len() && #[trigger] s[i].0@ == k,
        forall|i: int| 0 <= i < s.len() ==> #[trigger] m[s[i].0@] == (s[i].1, s[i].2),
    ensures
        entries_map(s) == m,
{
    lemma_entries_dom(s);
    assert forall|k: Seq<char>| #[trigger] entries_map(s).contains_key(k) implies entries_map(s)[k] == m[k] by {
        let i = choose|i: int| 0 <= i < s.len() && #[trigger] s[i].0@ == k;
        lemma_entries_at(s, i);
    }
    assert(entries_map(s) =~= m);
}

/// The value cached for `key` that is fresh at `now`.
pub open spec fn lookup<T>(m: Map<Seq<char>, (T, u128)>, key: Seq<char>, now: u128, ttl: u128) -> Option<T> {
    if m.contains_key(key) && fresh(m[key].1, now, ttl) {
        Some(m[key].0)
    } else {
        None
    }
}

/// The entries of `m` that are fresh at `now`.
pub open spec fn fresh_part<T>(m: Map<Seq<char>, (T, u128)>, now: u128, ttl: u128) -> Map<Seq<char>, (T, u128)> {
    m.restrict(m.dom().filter(|k: Seq<char>| fresh(m[k].1, now, ttl)))
}

/// `kept` holds exactly the entries among the first `i` of `before` that are
/// fresh at `now`, in order, with distinct keys.
pub open spec fn kept_fresh<T>(before: Seq<(String, T, u128)>, kept: Seq<(String, T, u128)>, i: int, now: u128, ttl: u128) -> bool {
    &&& 0 <= i <= before.len()
    &&& distinct_keys(before)
    &&& distinct_keys(kept)
    &&& forall|j: int| 0 <= j < kept.len() ==> exists|a: int| 0 <= a < i && #[trigger] kept[j] == before[a]
    &&& forall|a: int|
        0 <= a < i ==> (fresh(before[a].2, now, ttl) <==> exists|j: int| 0 <= j < kept.len() && #[trigger] kept[j] == before[a])
    &&& forall|j: int| 0 <= j < kept.len() ==> fresh(#[trigger] kept[j].2, now, ttl)
}

proof fn lemma_keep_step<T>(before: Seq<(String, T, u128)>, kb: Seq<(String, T, u128)>, i: int, now: u128, ttl: u128)
    requires
        kept_fresh(before, kb, i, now, ttl),
        i < before.len(),
        fresh(before[i].2, now, ttl),
    ensures
        kept_fresh(before, kb.push(before[i]), i + 1, now, ttl),
{
    let kept = kb.push(before[i]);
    assert forall|a: int, b: int| 0 <= a < b < kept.len() implies kept[a].0@ != kept[b].0@ by {
        if b == kept.len() - 1 {
            let x = choose|x: int| 0 <= x < i && #[trigger] kb[a] == before[x];
            assert(kept[a] == before[x]);
        } else {
            assert(kept[a] == kb[a] && kept[b] == kb[b]);
        }
    }
    assert forall|j: int| 0 <= j < kept.len() implies exists|a: int| 0 <= a < i + 1 && #[trigger] kept[j] == before[a] by {
        if j < kb.len() {
            let x = choose|x: int| 0 <= x < i && #[trigger] kb[j] == before[x];
            assert(kept[j] == before[x]);
        } else {
            assert(kept[j] == before[i]);
        }
    }
    assert forall|a: int|
        0 <= a < i + 1 implies (fresh(before[a].2, now, ttl) <==> exists|j: int| 0 <= j < kept.len() && #[trigger] kept[j] == before[a]) by {
        if a < i {
            if exists|j: int| 0 <= j < kept.len() && #[trigger] kept[j] == before[a] {
                let j = choose|j: int| 0 <= j < kept.len() && #[trigger] kept[j] == before[a];
                if j == kept.len() - 1 {
                    assert(before[a].0@ == before[i].0@);
                } else {
                    assert(kb[j] == before[a]);
                }
            }
            if fresh(before[a].2, now, ttl) {
                let j = choose|j: int| 0 <= j < kb.len() && #[trigger] kb[j] == before[a];
                assert(kept[j] == before[a]);
            }
        } else {
            assert(kept[kept.len() - 1] == before[a]);
        }
    }
    assert forall|j: int| 0 <= j < kept.len() implies fresh(#[trigger] kept[j].2, now, ttl) by {
        if j < kb.len() {
            assert(kept[j] == kb[j]);
        }
    }
}

proof fn lemma_drop_step<T>(before: Seq<(String, T, u128)>, kept: Seq<(String, T, u128)>, i: int, now: u128, ttl: u128)
    requires
        kept_fresh(before, kept, i, now, ttl),
        i < before.len(),
        !fresh(before[i].2, now, ttl),
    ensures
        kept_fresh(before, kept, i + 1, now, ttl),
{
    assert forall|j: int| 0 <= j < kept.len() implies exists|a: int| 0 <= a < i + 1 && #[trigger] kept[j] == before[a] by {
        let x = choose|x: int| 0 <= x < i && #[trigger] kept[j] == before[x];
    }
    assert forall|a: int|
        0 <= a < i + 1 implies (fresh(before[a].2, now, ttl) <==> exists|j: int| 0 <= j < kept.len() && #[trigger] kept[j] == before[a]) by {
        if a == i {
            if exists|j: int| 0 <= j < kept.len() && #[trigger] kept[j] == before[a] {
                let j = choose|j: int| 0 <= j < kept.len() && #[trigger] kept[j] == before[a];
                assert(fresh(kept[j].2, now, ttl));
            }
        }
    }
}

proof fn lemma_cleanup_result<T>(before: Seq<(String, T, u128)>, s: Seq<(String, T, u128)>, now: u128, ttl: u128)
    requires
        kept_fresh(before, s, before.len() as int, now, ttl),
    ensures
        distinct_keys(s),
        entries_map(s) == fresh_part(entries_map(before), now, ttl),
        entries_map(s).len() == s.len(),
        entries_map(before).len() == before.len(),
{
    let bm = entries_map(before);
    let m = fresh_part(bm, now, ttl);
    lemma_entries_dom(before);
    lemma_entries_len(before);
    assert forall|k: Seq<char>|
        m.contains_key(k) <==> exists|j: int| 0 <= j < s.len() && #[trigger] s[j].0@ == k by {
        if m.contains_key(k) {
            let a = choose|a: int| 0 <= a < before.len() && #[trigger] before[a].0@ == k;
            lemma_entries_at(before, a);
            assert(fresh(before[a].2, now, ttl));
            let j = choose|j: int| 0 <= j < s.len() && #[trigger] s[j] == before[a];
            assert(s[j].0@ == k);
        }
        if exists|j: int| 0 <= j < s.len() && #[trigger] s[j].0@ == k {
            let j = choose|j: int| 0 <= j < s.len() && #[trigger] s[j].0@ == k;
            let a = choose|a: int| 0 <= a < before.len() && #[trigger] s[j] == before[a];
            lemma_entries_at(before, a);
            assert(bm.dom().filter(|k: Seq<char>| fresh(bm[k].1, now, ttl)).contains(k));
        }
    }
    assert forall|j: int| 0 <= j < s.len() implies #[trigger] m[s[j].0@] == (s[j].1, s[j].2) by {
        let a = choose|a: int| 0 <= a < before.len() && #[trigger] s[j] == before[a];
        lemma_entries_at(before, a);
    }
    lemma_entries_equal(s, m);
    lemma_entries_len(s);
}

/// An in-memory cache keyed by text; an entry expires `ttl` after it was stored.
pub struct Cache<T> {
    entries: Vec<(String, T, u128)>,
    ttl: u128,
}

impl<T: Clone> Cache<T> {
    /// The entries held, each with the time it was stored.
    pub closed spec fn view(&self) -> Map<Seq<char>, (T, u128)> {
        entries_map(self.entries@)
    }

    /// The lifetime of an entry.
    pub closed spec fn lifetime(&self) -> u128 {
        self.ttl
    }

    /// The cache's internal consistency: each key is held once.
    pub closed spec fn wf(&self) -> bool {
        distinct_keys(self.entries@)
    }

    /// An empty cache whose entries live `ttl`.
    pub fn new(ttl: u128) -> (c: Self)
        ensures
            c.wf(),
            c@ == Map::<Seq<char>, (T, u128)>::empty(),
            c.lifetime() == ttl,
    {
        let c = Cache { entries: Vec::new(), ttl };
        assert(c@ =~= Map::<Seq<char>, (T, u128)>::empty());
        c
    }

    fn find(&self, key: &str) -> (r: Option<usize>)
        ensures
            match r {
                Some(i) => i < self.entries@.len() && self.entries@[i as int].0@ == key@,
                None => forall|i: int| 0 <= i < self.entries@.len() ==> #[trigger] self.entries@[i].0@ != key@,
            },
    {
        let k = chars_of(key);
        let mut i: usize = 0;
        while i < self.entries.len()
            invariant
                i <= self.entries@.len(),
                k@ == key@,
                forall|j: int| 0 <= j < i ==> #[trigger] self.entries@[j].0@ != key@,
            decreases self.entries@.len() - i,
        {
            if chars_eq(&chars_of(self.entries[i].0.as_str()), &k) {
                return Some(i);
            }
            i = i + 1;
        }
        None
    }

    /// The value stored for `key` when it is still fresh at `now`.
    pub fn get(&self, key: &str, now: u128) -> (r: Option<T>)
        requires
            self.wf(),
        ensures
            r is Some <==> lookup(self@, key@, now, self.lifetime()) is Some,
            r matches Some(v) ==> cloned(self@[key@].0, v),
    {
        proof {
            lemma_entries_dom(self.entries@);
        }
        match self.find(key) {
            Some(i) => {
                proof {
                    lemma_entries_at(self.entries@, i as int);
                }
                let stored = self.entries[i].2;
                let elapsed = if now > stored { now - stored } else { 0 };
                if elapsed < self.ttl {
                    Some(self.entries[i].1.clone())
                } else {
                    None
                }
            },
            None => None,
        }
    }

    /// Stores `value` for `key` at `now`, replacing what was stored for it.
    pub fn set(&mut self, key: &str, value: T, now: u128)
        requires
            old(self).wf(),
        ensures
            final(self).wf(),
            final(self)@ == old(self)@.insert(key@, (value, now)),
            final(self).lifetime() == old(self).lifetime(),
    {
        let ghost before = self.entries@;
        let ghost m = entries_map(before).insert(key@, (value, now));
        proof {
            lemma_entries_dom(before);
        }
        match self.find(key) {
            Some(i) => {
                self.entries.set(i, (String::from_str(key), value, now));
                proof {
                    let s = self.entries@;
                    assert forall|k: Seq<char>|
                        m.contains_key(k) <==> exists|j: int| 0 <= j < s.len() && #[trigger] s[j].0@ == k by {
                        if m.contains_key(k) && k != key@ {
                            let j = choose|j: int| 0 <= j < before.len() && #[trigger] before[j].0@ == k;
                            assert(s[j].0@ == k);
                        }
                        if m.contains_key(k) && k == key@ {
                            assert(s[i as int].0@ == k);
                        }
                        if exists|j: int| 0 <= j < s.len() && #[trigger] s[j].0@ == k {
                            let j = choose|j: int| 0 <= j < s.len() && #[trigger] s[j].0@ == k;
                            if j != i {
                                assert(before[j].0@ == k);
                            }
                        }
                    }
                    assert forall|j: int| 0 <= j < s.len() implies #[trigger] m[s[j].0@] == (s[j].1, s[j].2) by {
                        if j != i {
                            lemma_entries_at(before, j);
                        }
                    }
                    lemma_entries_equal(s, m);
                }
            },
            None => {
                self.entries.push((String::from_str(key), value, now));
                proof {
                    let s = self.entries@;
                    assert(s.drop_last() =~= before);
                }
            },
        }
    }

    /// Removes the entry for `key`; whether there was one.
    pub fn remove(&mut self, key: &str) -> (r: bool)
        requires
            old(self).wf(),
        ensures
            final(self).wf(),
            r == old(self)@.contains_key(key@),
            final(self)@ == old(self)@.remove(key@),
            final(self).lifetime() == old(self).lifetime(),
    {
        let ghost before = self.entries@;
        let ghost m = entries_map(before).remove(key@);
        proof {
            lemma_entries_dom(before);
        }
        match self.find(key) {
            Some(i) => {
                let _e = self.entries.remove(i);
                proof {
                    let s = self.entries@;
                    assert(s =~= before.remove(i as int));
                    assert forall|k: Seq<char>|
                        m.contains_key(k) <==> exists|j: int| 0 <= j < s.len() && #[trigger] s[j].0@ == k by {
                        if m.contains_key(k) {
                            let j = choose|j: int| 0 <= j < before.len() && #[trigger] before[j].0@ == k;
                            if j < i {
                                assert(s[j].0@ == k);
                            } else {
                                assert(s[j - 1].0@ == k);
                            }
                        }
                        if exists|j: int| 0 <= j < s.len() && #[trigger] s[j].0@ == k {
                            let j = choose|j: int| 0 <= j < s.len() && #[trigger] s[j].0@ == k;
                            if j < i {
                                assert(before[j].0@ == k);
                            } else {
                                assert(before[j + 1].0@ == k);
                            }
                        }
                    }
                    assert forall|j: int| 0 <= j < s.len() implies #[trigger] m[s[j].0@] == (s[j].1, s[j].2) by {
                        if j < i {
                            lemma_entries_at(before, j);
                        } else {
                            lemma_entries_at(before, j + 1);
                        }
                    }
                    lemma_entries_equal(s, m);
                }
                true
            },
            None => {
                assert(entries_map(before).remove(key@) =~= entries_map(before));
                false
            },
        }
    }

    /// Removes every entry.
    pub fn clear(&mut self)
        requires
            old(self).wf(),
        ensures
            final(self).wf(),
            final(self)@ == Map::<Seq<char>, (T, u128)>::empty(),
            final(self).lifetime() == old(self).lifetime(),
    {
        self.entries = Vec::new();
        assert(self@ =~= Map::<Seq<char>, (T, u128)>::empty());
    }

    /// Whether an entry for `key` is held, fresh or not.
    pub fn contains_key(&self, key: &str) -> (b: bool)
        requires
            self.wf(),
        ensures
            b == self@.contains_key(key@),
    {
        proof {
            lemma_entries_dom(self.entries@);
        }
        match self.find(key) {
            Some(i) => true,
            None => false,
        }
    }

    /// The number of entries held, fresh or not.
    pub fn len(&self) -> (n: usize)
        requires
            self.wf(),
        ensures
            n == self@.len(),
    {
        proof {
            lemma_entries_len(self.entries@);
        }
        self.entries.len()
    }

    /// Whether no entry is held.
    pub fn is_empty(&self) -> (b: bool)
        requires
            self.wf(),
        ensures
            b == (self@.len() == 0),
    {
        proof {
            lemma_entries_len(self.entries@);
        }
        self.entries.len() == 0
    }

    /// Removes the entries that are no longer fresh at `now`; how many were removed.
    pub fn cleanup_expired(&mut self, now: u128) -> (n: usize)
        requires
            old(self).wf(),
        ensures
            final(self).wf(),
            final(self)@ == fresh_part(old(self)@, now, old(self).lifetime()),
            n == old(self)@.len() - final(self)@.len(),
            final(self).lifetime() == old(self).lifetime(),
    {
        let ghost before = self.entries@;
        let ttl = self.ttl;
        let mut rest: Vec<(String, T, u128)> = Vec::new();
        std::mem::swap(&mut rest, &mut self.entries);
        let n0 = rest.len();
        assert(before.skip(0) =~= before);
        let mut kept: Vec<(String, T, u128)> = Vec::new();
        let mut removed: usize = 0;
        let mut i: usize = 0;
        while rest.len() > 0
            invariant
                n0 == before.len(),
                i + rest@.len() == before.len(),
                rest@ == before.skip(i as int),
                kept@.len() + removed == i,
                kept_fresh(before, kept@, i as int, now, ttl),
            decreases rest@.len(),
        {
            let e = rest.remove(0);
            assert(e == before[i as int]);
            assert(rest@ =~= before.skip(i + 1));
            let elapsed = if now > e.2 { now - e.2 } else { 0 };
            if elapsed < ttl {
                let ghost kb = kept@;
                kept.push(e);
                proof {
                    lemma_keep_step(before, kb, i as int, now, ttl);
                }
            } else {
                removed = removed + 1;
                proof {
                    lemma_drop_step(before, kept@, i as int, now, ttl);
                }
            }
            i = i + 1;
        }
        self.entries = kept;
        proof {
            lemma_cleanup_result(before, self.entries@, now, ttl);
        }
        removed
    }

    /// Sets the lifetime of the entries.
    pub fn set_ttl(&mut self, ttl: u128)
        requires
            old(self).wf(),
        ensures
            final(self).wf(),
            final(self)@ == old(self)@,
            final(self).lifetime() == ttl,
    {
        self.ttl = ttl;
    }
}

/// A value stored for a key is read back while it is fresh, and storing
/// leaves every other key's reading unchanged.
pub proof fn law_read_after_write<T>(
    m: Map<Seq<char>, (T, u128)>,
    key: Seq<char>,
    other: Seq<char>,
    value: T,
    stored: u128,
    now: u128,
    ttl: u128,
)
    requires
        fresh(stored, now, ttl),
        other != key,
    ensures
        lookup(m.insert(key, (value, stored)), key, now, ttl) == Some(value),
        lookup(m.insert(key, (value, stored)), other, now, ttl) == lookup(m, other, now, ttl),
{
}

/// A stored value is no longer read once its lifetime has passed.
pub proof fn law_entries_expire<T>(m: Map<Seq<char>, (T, u128)>, key: Seq<char>, value: T, stored: u128, now: u128, ttl: u128)
    requires
        now >= stored,
        now - stored >= ttl,
    ensures
        lookup(m.insert(key, (value, stored)), key, now, ttl) is None,
{
}

/// A removed key is not read, and removing leaves other keys' readings unchanged.
pub proof fn law_removed_is_absent<T>(m: Map<Seq<char>, (T, u128)>, key: Seq<char>, other: Seq<char>, now: u128, ttl: u128)
    requires
        other != key,
    ensures
        lookup(m.remove(key), key, now, ttl) is None,
        lookup(m.remove(key), other, now, ttl) == lookup(m, other, now, ttl),
{
}

/// Removing the expired entries changes no reading at the same time, and
/// leaves only fresh entries.
pub proof fn law_cleanup_keeps_readings<T>(m: Map<Seq<char>, (T, u128)>, key: Seq<char>, now: u128, ttl: u128)
    ensures
        lookup(fresh_part(m, now, ttl), key, now, ttl) == lookup(m, key, now, ttl),
        forall|k: Seq<char>| #[trigger] fresh_part(m, now, ttl).contains_key(k) ==> fresh(fresh_part(m, now, ttl)[k].1, now, ttl),
{
}

/// The default lifetime of a string cache: one hour.
pub const STRING_CACHE_TTL: u128 = 3_600_000_000_000;

/// A cache of strings with a directory for persistent copies.
pub struct StringCache {
    /// The in-memory entries
    pub store: Cache<String>,
    /// The directory holding persistent copies
    pub cache_dir: String,
}

impl StringCache {
    /// A string cache in `cache_dir` with entries living one hour. Creating
    /// the directory is left to the caller.
    pub fn new(cache_dir: &str) -> (c: Self)
        ensures
            c.store.wf(),
            c.store@ == Map::<Seq<char>, (String, u128)>::empty(),
            c.store.lifetime() == STRING_CACHE_TTL,
            c.cache_dir@ == cache_dir@,
    {
        StringCache { store: Cache::new(STRING_CACHE_TTL), cache_dir: String::from_str(cache_dir) }
    }

    /// A string cache in `cache_dir` with entries living `ttl`.
    pub fn with_ttl(cache_dir: &str, ttl: u128) -> (c: Self)
        ensures
            c.store.wf(),
            c.store@ == Map::<Seq<char>, (String, u128)>::empty(),
            c.store.lifetime() == ttl,
            c.cache_dir@ == cache_dir@,
    {
        StringCache { store: Cache::new(ttl), cache_dir: String::from_str(cache_dir) }
    }

    /// The file holding the persistent copy for `key`.
    pub fn get_path(&self, key: &str) -> (r: String)
        ensures
            r@ == path_join(self.cache_dir@, safe_key(key@)),
    {
        let safe = safe_key_of(key);
        join_path(self.cache_dir.as_str(), safe.as_str())
    }

    /// The file holding the entry record for `key`.
    pub fn get_metadata_path(&self, key: &str) -> (r: String)
        ensures
            r@ == path_with_extension(path_join(self.cache_dir@, safe_key(key@)), "meta"@),
    {
        let p = self.get_path(key);
        proof {
            reveal_strlit("meta");
        }
        with_extension(p.as_str(), "meta")
    }

    /// Stores `value` for `key` at `now`.
    pub fn set_value(&mut self, key: &str, value: String, now: u128)
        requires
            old(self).store.wf(),
        ensures
            final(self).store.wf(),
            final(self).store@ == old(self).store@.insert(key@, (value, now)),
            final(self).store.lifetime() == old(self).store.lifetime(),
            final(self).cache_dir == old(self).cache_dir,
    {
        self.store.set(key, value, now);
    }

    /// The value stored for `key` when it is still fresh at `now`.
    pub fn get(&self, key: &str, now: u128) -> (r: Option<String>)
        requires
            self.store.wf(),
        ensures
            match lookup(self.store@, key@, now, self.store.lifetime()) {
                Some(v) => r matches Some(t) && t@ == v@,
                None => r is None,
            },
    {
        self.store.get(key, now)
    }

    /// Whether no entry is held.
    pub fn is_empty(&self) -> (b: bool)
        requires
            self.store.wf(),
        ensures
            b == (self.store@.len() == 0),
    {
        self.store.is_empty()
    }

    /// Removes every entry.
    pub fn clear(&mut self)
        requires
            old(self).store.wf(),
        ensures
            final(self).store.wf(),
            final(self).store@ == Map::<Seq<char>, (String, u128)>::empty(),
            final(self).store.lifetime() == old(self).store.lifetime(),
            final(self).cache_dir == old(self).cache_dir,
    {
        self.store.clear();
    }

    /// Sets the lifetime of the entries to `ttl`.
    pub fn set_ttl(&mut self, ttl: u128)
        requires
            old(self).store.wf(),
        ensures
            final(self).store.wf(),
            final(self).store@ == old(self).store@,
            final(self).store.lifetime() == ttl,
            final(self).cache_dir == old(self).cache_dir,
    {
        self.store.set_ttl(ttl);
    }

    /// Removes the entry for `key`; whether there was one.
    pub fn remove(&mut self, key: &str) -> (r: bool)
        requires
            old(self).store.wf(),
        ensures
            final(self).store.wf(),
            r == old(self).store@.contains_key(key@),
            final(self).store@ == old(self).store@.remove(key@),
            final(self).store.lifetime() == old(self).store.lifetime(),
            final(self).cache_dir == old(self).cache_dir,
    {
        self.store.remove(key)
    }

    /// Whether an entry for `key` is held.
    pub fn contains_key(&self, key: &str) -> (b: bool)
        requires
            self.store.wf(),
        ensures
            b == self.store@.contains_key(key@),
    {
        self.store.contains_key(key)
    }

    /// The number of entries held.
    pub fn len(&self) -> (n: usize)
        requires
            self.store.wf(),
        ensures
            n == self.store@.len(),
    {
        self.store.len()
    }

    /// Removes the entries no longer fresh at `now`; how many were removed.
    pub fn cleanup_expired(&mut self, now: u128) -> (n: usize)
        requires
            old(self).store.wf(),
        ensures
            final(self).store.wf(),
            final(self).store@ == fresh_part(old(self).store@, now, old(self).store.lifetime()),
            n == old(self).store@.len() - final(self).store@.len(),
            final(self).cache_dir == old(self).cache_dir,
    {
        self.store.cleanup_expired(now)
    }

    /// The file the whole cache is saved to.
    pub fn cache_file(&self) -> (r: String)
        ensures
            r@ == path_join(self.cache_dir@, "cache.json"@),
    {
        join_path(self.cache_dir.as_str(), "cache.json")
    }
}

/// The creation time saved for an entry: the current time less its age, in
/// milliseconds. An age beyond the current time makes the subtraction
/// overflow, so `requires` leaves it out.
pub fn saved_created_at(now_ms: u64, age_ms: u64) -> (r: u64)
    requires
        age_ms <= now_ms,
    ensures
        r == now_ms - age_ms,
{
    now_ms - age_ms
}

/// The age of a loaded entry in milliseconds: the current time less its
/// saved creation time. A creation time in the future makes the subtraction
/// overflow, so `requires` leaves it out.
pub fn loaded_age(current_ms: u64, created_at_ms: u64) -> (r: u64)
    requires
        created_at_ms <= current_ms,
    ensures
        r == current_ms - created_at_ms,
{
    current_ms - created_at_ms
}

/// Metadata kept with an entry.
pub struct CacheMetadata {
    /// How long the entry stays valid
    pub ttl: u128,
    /// Where the entry came from
    pub source: String,
    /// When the entry was made, in RFC 3339 form
    pub created_at: String,
}

impl CacheMetadata {
    /// Metadata for an entry from `source` living `ttl`, made now.
    pub fn new(ttl: u128, source: &str) -> (m: Self)
        ensures
            m.ttl == ttl,
            m.source@ == source@,
    {
        CacheMetadata { ttl, source: String::from_str(source), created_at: utc_now_rfc3339() }
    }
}


/// A cache file name holds none of `/ : ? & =`, and making it safe again
/// changes nothing.
pub proof fn law_safe_keys_are_stable(key: Seq<char>)
    ensures
        forall|i: int| 0 <= i < key.len() ==> key_char(#[trigger] safe_key(key)[i]) == safe_key(key)[i],
        safe_key(safe_key(key)) == safe_key(key),
{
    assert(safe_key(safe_key(key)) =~= safe_key(key));
}


/// Saving an entry as a creation time and loading it back later gives the
/// age it had when saved plus the time that passed in between.
pub proof fn law_reload_keeps_age(saved_at: u64, age: u64, loaded_at: u64)
    requires
        age <= saved_at <= loaded_at,
    ensures
        loaded_at - (saved_at - age) == age + (loaded_at - saved_at),
        saved_at - age <= loaded_at,
{
}

} // verus!
