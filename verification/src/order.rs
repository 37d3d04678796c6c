//! Stable sorting by an integer key and by text, as `slice::sort_by` orders.

use vstd::prelude::*;

verus! {

broadcast use vstd::seq_lib::group_to_multiset_ensures;

/// `a` comes strictly before `b` in code-point order (the order of `str`'s `Ord`).
pub open spec fn text_lt(a: Seq<char>, b: Seq<char>) -> bool
    decreases a.len(),
{
    if a.len() == 0 {
        b.len() > 0
    } else if b.len() == 0 {
        false
    } else if (a[0] as u32) < (b[0] as u32) {
        true
    } else if a[0] == b[0] {
        text_lt(a.drop_first(), b.drop_first())
    } else {
        false
    }
}

/// Executable `text_lt`.
pub fn text_less(a: &[char], b: &[char]) -> (r: bool)
    ensures
        r == text_lt(a@, b@),
{
    let mut i: usize = 0;
    assert(a@.skip(0) =~= a@);
    assert(b@.skip(0) =~= b@);
    while i < a.len() && i < b.len()
        invariant
            i <= a@.len(),
            i <= b@.len(),
            text_lt(a@, b@) == text_lt(a@.skip(i as int), b@.skip(i as int)),
        decreases a@.len() - i,
    {
        assert(a@.skip(i as int)[0] == a@[i as int]);
        assert(b@.skip(i as int)[0] == b@[i as int]);
        if (a[i] as u32) < (b[i] as u32) {
            return true;
        }
        if a[i] != b[i] {
            return false;
        }
        assert(a@.skip(i as int).drop_first() =~= a@.skip(i + 1));
        assert(b@.skip(i as int).drop_first() =~= b@.skip(i + 1));
        i = i + 1;
    }
    i == a.len() && i < b.len()
}

/// `x` placed into `s` after every element whose key is at least `x`'s key.
pub open spec fn insert_desc<T>(s: Seq<(i64, T)>, x: (i64, T)) -> Seq<(i64, T)>
    decreases s.len(),
{
    if s.len() == 0 {
        seq![x]
    } else if s[0].0 >= x.0 {
        seq![s[0]] + insert_desc(s.drop_first(), x)
    } else {
        seq![x] + s
    }
}

/// `s` stably sorted by key, largest key first (`sort_by(|a, b| b.0.cmp(&a.0))`).
pub open spec fn sorted_desc<T>(s: Seq<(i64, T)>) -> Seq<(i64, T)>
    decreases s.len(),
{
    if s.len() == 0 {
        s
    } else {
        insert_desc(sorted_desc(s.drop_last()), s.last())
    }
}

/// Keys never increase along `s`.
pub open spec fn keys_descending<T>(s: Seq<(i64, T)>) -> bool {
    forall|i: int, j: int| 0 <= i < j < s.len() ==> s[i].0 >= s[j].0
}

proof fn lemma_insert_desc_at<T>(s: Seq<(i64, T)>, x: (i64, T), p: int)
    requires
        0 <= p <= s.len(),
        forall|i: int| 0 <= i < p ==> s[i].0 >= x.0,
        p == s.len() || s[p].0 < x.0,
    ensures
        insert_desc(s, x) == s.insert(p, x),
    decreases p,
{
    if p == 0 {
        assert(insert_desc(s, x) =~= s.insert(p, x));
    } else {
        lemma_insert_desc_at(s.drop_first(), x, p - 1);
        assert(insert_desc(s, x) =~= s.insert(p, x));
    }
}

proof fn lemma_insert_desc_props<T>(s: Seq<(i64, T)>, x: (i64, T))
    requires
        keys_descending(s),
    ensures
        keys_descending(insert_desc(s, x)),
        insert_desc(s, x).to_multiset() == s.to_multiset().insert(x),
        insert_desc(s, x).len() == s.len() + 1,
        forall|j: int|
            0 <= j < insert_desc(s, x).len() ==> #[trigger] insert_desc(s, x)[j] == x || s.contains(
                insert_desc(s, x)[j],
            ),
    decreases s.len(),
{
    if s.len() == 0 {
        assert(insert_desc(s, x) =~= s.insert(0, x));
    } else if s[0].0 >= x.0 {
        let rest = s.drop_first();
        assert forall|i: int, j: int| 0 <= i < j < rest.len() implies rest[i].0 >= rest[j].0 by {
            assert(rest[i] == s[i + 1]);
            assert(rest[j] == s[j + 1]);
        }
        lemma_insert_desc_props(rest, x);
        let t = insert_desc(rest, x);
        let r = insert_desc(s, x);
        assert(r =~= seq![s[0]] + t);
        assert(r =~= t.insert(0, s[0]));
        assert(s =~= rest.insert(0, s[0]));
        assert forall|j: int| 0 <= j < r.len() implies #[trigger] r[j] == x || s.contains(r[j]) by {
            if j > 0 {
                assert(r[j] == t[j - 1]);
                if t[j - 1] != x {
                    let k = choose|k: int| 0 <= k < rest.len() && rest[k] == t[j - 1];
                    assert(s[k + 1] == rest[k]);
                }
            } else {
                assert(s[0] == r[0]);
            }
        }
        assert forall|i: int, j: int| 0 <= i < j < r.len() implies r[i].0 >= r[j].0 by {
            if i == 0 {
                assert(r[j] == t[j - 1]);
                if t[j - 1] != x {
                    let k = choose|k: int| 0 <= k < rest.len() && rest[k] == t[j - 1];
                    assert(s[k + 1] == rest[k]);
                }
            } else {
                assert(r[i] == t[i - 1]);
                assert(r[j] == t[j - 1]);
            }
        }
    } else {
        let r = insert_desc(s, x);
        assert(r =~= s.insert(0, x));
        assert forall|j: int| 0 <= j < r.len() implies #[trigger] r[j] == x || s.contains(r[j]) by {
            if j > 0 {
                assert(r[j] == s[j - 1]);
            }
        }
        assert forall|i: int, j: int| 0 <= i < j < r.len() implies r[i].0 >= r[j].0 by {
            if i == 0 {
                assert(r[j] == s[j - 1]);
                assert(s[0].0 >= s[j - 1].0 || j - 1 == 0);
            } else {
                assert(r[i] == s[i - 1]);
                assert(r[j] == s[j - 1]);
            }
        }
    }
}

/// The sorted sequence has descending keys and holds the same elements.
pub proof fn lemma_sorted_desc<T>(s: Seq<(i64, T)>)
    ensures
        keys_descending(sorted_desc(s)),
        sorted_desc(s).to_multiset() == s.to_multiset(),
        sorted_desc(s).len() == s.len(),
    decreases s.len(),
{
    if s.len() > 0 {
        lemma_sorted_desc(s.drop_last());
        lemma_insert_desc_props(sorted_desc(s.drop_last()), s.last());
        assert(s.drop_last().push(s.last()) =~= s);
    }
}

/// Stably sorts by key, largest first.
pub fn sort_desc<T>(v: Vec<(i64, T)>) -> (r: Vec<(i64, T)>)
    ensures
        r@ == sorted_desc(v@),
{
    let mut r: Vec<(i64, T)> = Vec::new();
    let mut v = v;
    let ghost orig = v@;
    assert(orig.len() == v.len());
    let mut rest: Vec<(i64, T)> = Vec::new();
    // reverse so that `pop` yields the original order
    while v.len() > 0
        invariant
            rest@ + v@.reverse() =~= orig.reverse(),
            orig.len() <= usize::MAX,
        decreases v@.len(),
    {
        let ghost before = v@;
        let x = v.pop().unwrap();
        proof {
            assert(before =~= v@.push(x));
            assert(before.reverse() =~= seq![x] + v@.reverse());
        }
        rest.push(x);
        proof {
            assert(rest@ + v@.reverse() =~= orig.reverse());
        }
    }
    // now rest is orig reversed; popping gives orig in order
    let mut done: usize = 0;
    assert(orig.take(0) =~= Seq::<(i64, T)>::empty());
    while rest.len() > 0
        invariant
            done + rest@.len() == orig.len(),
            orig.len() <= usize::MAX,
            rest@ =~= orig.skip(done as int).reverse(),
            r@ == sorted_desc(orig.take(done as int)),
            keys_descending(r@),
        decreases rest@.len(),
    {
        let ghost before = rest@;
        let x = rest.pop().unwrap();
        proof {
            assert(before =~= rest@.push(x));
            assert(orig.skip(done as int).reverse().last() == orig.skip(done as int)[0]);
            assert(x == orig[done as int]);
            assert(rest@ =~= orig.skip(done + 1).reverse());
            assert(orig.take(done + 1).drop_last() =~= orig.take(done as int));
            lemma_insert_desc_props(r@, x);
        }
        let mut p: usize = 0;
        while p < r.len() && r[p].0 >= x.0
            invariant
                p <= r@.len(),
                forall|i: int| 0 <= i < p ==> r@[i].0 >= x.0,
            decreases r@.len() - p,
        {
            p = p + 1;
        }
        proof {
            lemma_insert_desc_at(r@, x, p as int);
        }
        r.insert(p, x);
        done = done + 1;
    }
    assert(orig.take(orig.len() as int) =~= orig);
    r
}

/// Whether, sorting by text (descending when `desc`), `x` goes before `e`.
pub open spec fn goes_before(x: Seq<char>, e: Seq<char>, desc: bool) -> bool {
    if desc {
        text_lt(e, x)
    } else {
        text_lt(x, e)
    }
}

/// `x` placed into `s` after every element that it does not go before.
pub open spec fn insert_text<T>(s: Seq<(Seq<char>, T)>, x: (Seq<char>, T), desc: bool) -> Seq<(Seq<char>, T)>
    decreases s.len(),
{
    if s.len() == 0 {
        seq![x]
    } else if !goes_before(x.0, s[0].0, desc) {
        seq![s[0]] + insert_text(s.drop_first(), x, desc)
    } else {
        seq![x] + s
    }
}

/// `s` stably sorted by text: smallest first (`sort_by(|a, b| a.0.cmp(&b.0))`),
/// or largest first when `desc` (`sort_by(|a, b| b.0.cmp(&a.0))`).
pub open spec fn sorted_text<T>(s: Seq<(Seq<char>, T)>, desc: bool) -> Seq<(Seq<char>, T)>
    decreases s.len(),
{
    if s.len() == 0 {
        s
    } else {
        insert_text(sorted_text(s.drop_last(), desc), s.last(), desc)
    }
}

/// The view of a keyed sequence with `String` keys.
pub open spec fn text_keyed<T>(s: Seq<(String, T)>) -> Seq<(Seq<char>, T)> {
    s.map_values(|e: (String, T)| (e.0@, e.1))
}

proof fn lemma_insert_text_at<T>(s: Seq<(Seq<char>, T)>, x: (Seq<char>, T), desc: bool, p: int)
    requires
        0 <= p <= s.len(),
        forall|i: int| 0 <= i < p ==> !goes_before(x.0, #[trigger] s[i].0, desc),
        p == s.len() || goes_before(x.0, s[p].0, desc),
    ensures
        insert_text(s, x, desc) == s.insert(p, x),
    decreases p,
{
    if p == 0 {
        assert(insert_text(s, x, desc) =~= s.insert(p, x));
    } else {
        assert forall|i: int| 0 <= i < p - 1 implies !goes_before(
            x.0,
            #[trigger] s.drop_first()[i].0,
            desc,
        ) by {
            assert(s.drop_first()[i] == s[i + 1]);
        }
        lemma_insert_text_at(s.drop_first(), x, desc, p - 1);
        assert(insert_text(s, x, desc) =~= s.insert(p, x));
    }
}

fn precedes(x: &[char], e: &[char], desc: bool) -> (b: bool)
    ensures
        b == goes_before(x@, e@, desc),
{
    if desc {
        text_less(e, x)
    } else {
        text_less(x, e)
    }
}

/// Stably sorts by the text key (largest first when `desc`).
pub fn sort_by_text<T>(v: Vec<(String, T)>, desc: bool) -> (r: Vec<(String, T)>)
    ensures
        text_keyed(r@) == sorted_text(text_keyed(v@), desc),
{
    let mut v = v;
    let ghost orig = text_keyed(v@);
    assert(orig.len() == v.len());
    let mut rest: Vec<(String, T)> = Vec::new();
    while v.len() > 0
        invariant
            text_keyed(rest@) + text_keyed(v@).reverse() =~= orig.reverse(),
            orig.len() <= usize::MAX,
        decreases v@.len(),
    {
        let ghost before = v@;
        let x = v.pop().unwrap();
        proof {
            assert(before =~= v@.push(x));
            assert(text_keyed(before) =~= text_keyed(v@).push((x.0@, x.1)));
            assert(text_keyed(before).reverse() =~= seq![(x.0@, x.1)] + text_keyed(v@).reverse());
        }
        let ghost rb = rest@;
        rest.push(x);
        proof {
            assert(text_keyed(rest@) =~= text_keyed(rb).push((x.0@, x.1)));
        }
    }
    let mut r: Vec<(String, T)> = Vec::new();
    let mut done: usize = 0;
    assert(orig.take(0) =~= Seq::<(Seq<char>, T)>::empty());
    assert(text_keyed(r@) =~= Seq::<(Seq<char>, T)>::empty());
    while rest.len() > 0
        invariant
            done + rest@.len() == orig.len(),
            orig.len() <= usize::MAX,
            text_keyed(rest@) =~= orig.skip(done as int).reverse(),
            text_keyed(r@) == sorted_text(orig.take(done as int), desc),
        decreases rest@.len(),
    {
        let ghost before = rest@;
        let x = rest.pop().unwrap();
        let ghost xv = (x.0@, x.1);
        proof {
            assert(before =~= rest@.push(x));
            assert(text_keyed(before) =~= text_keyed(rest@).push(xv));
            assert(orig.skip(done as int).reverse().last() == orig.skip(done as int)[0]);
            assert(xv == orig[done as int]);
            assert(text_keyed(rest@) =~= text_keyed(before).drop_last());
            assert(orig.skip(done as int).reverse().drop_last() =~= orig.skip(done + 1).reverse());
            assert(text_keyed(rest@) =~= orig.skip(done + 1).reverse());
            assert(orig.take(done + 1).drop_last() =~= orig.take(done as int));
        }
        let xk = crate::text::chars_of(x.0.as_str());
        let mut p: usize = 0;
        while p < r.len() && !precedes(&xk, &crate::text::chars_of(r[p].0.as_str()), desc)
            invariant
                p <= r@.len(),
                xk@ == xv.0,
                forall|i: int| 0 <= i < p ==> !goes_before(xv.0, #[trigger] text_keyed(r@)[i].0, desc),
            decreases r@.len() - p,
        {
            p = p + 1;
        }
        proof {
            lemma_insert_text_at(text_keyed(r@), xv, desc, p as int);
        }
        let ghost rb = r@;
        r.insert(p, x);
        proof {
            assert(text_keyed(r@) =~= text_keyed(rb).insert(p as int, xv));
        }
        done = done + 1;
    }
    assert(orig.take(orig.len() as int) =~= orig);
    r
}

proof fn lemma_insert_text_members<T>(s: Seq<(Seq<char>, T)>, x: (Seq<char>, T), desc: bool)
    ensures
        insert_text(s, x, desc).len() == s.len() + 1,
        forall|j: int|
            0 <= j < insert_text(s, x, desc).len() ==> #[trigger] insert_text(s, x, desc)[j] == x
                || s.contains(insert_text(s, x, desc)[j]),
    decreases s.len(),
{
    if s.len() > 0 && !goes_before(x.0, s[0].0, desc) {
        let rest = s.drop_first();
        lemma_insert_text_members(rest, x, desc);
        let t = insert_text(rest, x, desc);
        let r = insert_text(s, x, desc);
        assert(r =~= seq![s[0]] + t);
        assert forall|j: int| 0 <= j < r.len() implies #[trigger] r[j] == x || s.contains(r[j]) by {
            if j == 0 {
                assert(s[0] == r[0]);
            } else {
                assert(r[j] == t[j - 1]);
                if t[j - 1] != x {
                    let k = choose|k: int| 0 <= k < rest.len() && rest[k] == t[j - 1];
                    assert(s[k + 1] == rest[k]);
                }
            }
        }
    } else if s.len() > 0 {
        let r = insert_text(s, x, desc);
        assert(r =~= seq![x] + s);
        assert forall|j: int| 0 <= j < r.len() implies #[trigger] r[j] == x || s.contains(r[j]) by {
            if j > 0 {
                assert(r[j] == s[j - 1]);
            }
        }
    } else {
        assert(insert_text(s, x, desc) =~= seq![x]);
    }
}

/// Sorting keeps the length, and every element of the result is one of the input's.
pub proof fn lemma_sorted_text_members<T>(s: Seq<(Seq<char>, T)>, desc: bool)
    ensures
        sorted_text(s, desc).len() == s.len(),
        forall|j: int|
            0 <= j < sorted_text(s, desc).len() ==> s.contains(#[trigger] sorted_text(s, desc)[j]),
    decreases s.len(),
{
    if s.len() > 0 {
        let prev = s.drop_last();
        lemma_sorted_text_members(prev, desc);
        lemma_insert_text_members(sorted_text(prev, desc), s.last(), desc);
        let r = sorted_text(s, desc);
        assert forall|j: int| 0 <= j < r.len() implies s.contains(#[trigger] r[j]) by {
            if r[j] == s.last() {
                assert(s[s.len() - 1] == s.last());
            } else {
                let k = choose|k: int| 0 <= k < sorted_text(prev, desc).len() && sorted_text(prev, desc)[k] == r[j];
                assert(prev.contains(sorted_text(prev, desc)[k]));
                let m = choose|m: int| 0 <= m < prev.len() && prev[m] == r[j];
                assert(s[m] == prev[m]);
            }
        }
    }
}

/// Sorting index-tagged entries keeps the indices in range.
pub proof fn lemma_sorted_text_indices(s: Seq<(Seq<char>, usize)>, desc: bool)
    requires
        forall|j: int| 0 <= j < s.len() ==> #[trigger] s[j].1 < s.len(),
    ensures
        sorted_text(s, desc).len() == s.len(),
        forall|j: int| 0 <= j < s.len() ==> #[trigger] sorted_text(s, desc)[j].1 < s.len(),
{
    lemma_sorted_text_members(s, desc);
    assert forall|j: int| 0 <= j < s.len() implies #[trigger] sorted_text(s, desc)[j].1 < s.len() by {
        let m = choose|m: int| 0 <= m < s.len() && s[m] == sorted_text(s, desc)[j];
    }
}

/// Sorting by key keeps every index payload below the length when each was
/// below it before.
pub proof fn lemma_sorted_desc_indices(s: Seq<(i64, usize)>)
    requires
        forall|j: int| 0 <= j < s.len() ==> #[trigger] s[j].1 < s.len(),
    ensures
        sorted_desc(s).len() == s.len(),
        forall|j: int| 0 <= j < s.len() ==> #[trigger] sorted_desc(s)[j].1 < s.len(),
{
    broadcast use vstd::seq_lib::group_to_multiset_ensures;

    lemma_sorted_desc(s);
    let t = sorted_desc(s);
    assert forall|j: int| 0 <= j < s.len() implies #[trigger] sorted_desc(s)[j].1 < s.len() by {
        assert(t.contains(t[j]));
        assert(t.to_multiset().count(t[j]) > 0);
        assert(s.contains(t[j]));
        let m = choose|m: int| 0 <= m < s.len() && s[m] == t[j];
    }
}


proof fn lemma_insert_text_keeps<T>(s: Seq<(Seq<char>, T)>, x: (Seq<char>, T), desc: bool)
    ensures
        insert_text(s, x, desc).contains(x),
        forall|k: int| 0 <= k < s.len() ==> insert_text(s, x, desc).contains(#[trigger] s[k]),
    decreases s.len(),
{
    let r = insert_text(s, x, desc);
    if s.len() == 0 {
        assert(r[0] == x);
    } else if !goes_before(x.0, s[0].0, desc) {
        let rest = s.drop_first();
        lemma_insert_text_keeps(rest, x, desc);
        let t = insert_text(rest, x, desc);
        assert(r =~= seq![s[0]] + t);
        let j = choose|j: int| 0 <= j < t.len() && t[j] == x;
        assert(r[j + 1] == x);
        assert forall|k: int| 0 <= k < s.len() implies r.contains(#[trigger] s[k]) by {
            if k == 0 {
                assert(r[0] == s[0]);
            } else {
                assert(rest[k - 1] == s[k]);
                let m = choose|m: int| 0 <= m < t.len() && t[m] == rest[k - 1];
                assert(r[m + 1] == s[k]);
            }
        }
    } else {
        assert(r =~= seq![x] + s);
        assert(r[0] == x);
        assert forall|k: int| 0 <= k < s.len() implies r.contains(#[trigger] s[k]) by {
            assert(r[k + 1] == s[k]);
        }
    }
}

/// Sorting loses no element: each one of the input is in the result.
pub proof fn lemma_sorted_text_keeps<T>(s: Seq<(Seq<char>, T)>, desc: bool)
    ensures
        forall|i: int| 0 <= i < s.len() ==> sorted_text(s, desc).contains(#[trigger] s[i]),
    decreases s.len(),
{
    if s.len() > 0 {
        let prev = s.drop_last();
        lemma_sorted_text_keeps(prev, desc);
        let sp = sorted_text(prev, desc);
        lemma_insert_text_keeps(sp, s.last(), desc);
        let r = sorted_text(s, desc);
        assert forall|i: int| 0 <= i < s.len() implies r.contains(#[trigger] s[i]) by {
            if i < s.len() - 1 {
                assert(prev[i] == s[i]);
                assert(sp.contains(prev[i]));
                let k = choose|k: int| 0 <= k < sp.len() && sp[k] == prev[i];
                assert(sp.contains(sp[k]));
            }
        }
    }
}


/// No text comes before itself.
pub proof fn lemma_text_lt_irreflexive(a: Seq<char>)
    ensures
        !text_lt(a, a),
    decreases a.len(),
{
    if a.len() > 0 {
        lemma_text_lt_irreflexive(a.drop_first());
    }
}

/// Coming before is transitive.
pub proof fn lemma_text_lt_transitive(a: Seq<char>, b: Seq<char>, c: Seq<char>)
    requires
        text_lt(a, b),
        text_lt(b, c),
    ensures
        text_lt(a, c),
    decreases a.len(),
{
    if a.len() > 0 && b.len() > 0 && c.len() > 0 && a[0] == b[0] && b[0] == c[0] {
        lemma_text_lt_transitive(a.drop_first(), b.drop_first(), c.drop_first());
    }
}

/// Keys never decrease along `s`.
pub open spec fn keys_ascending<T>(s: Seq<(Seq<char>, T)>) -> bool {
    forall|i: int, j: int| 0 <= i < j < s.len() ==> !text_lt(#[trigger] s[j].0, #[trigger] s[i].0)
}

proof fn lemma_insert_text_ascending<T>(s: Seq<(Seq<char>, T)>, x: (Seq<char>, T))
    requires
        keys_ascending(s),
    ensures
        keys_ascending(insert_text(s, x, false)),
    decreases s.len(),
{
    let r = insert_text(s, x, false);
    if s.len() == 0 {
    } else if !goes_before(x.0, s[0].0, false) {
        let rest = s.drop_first();
        assert forall|i: int, j: int| 0 <= i < j < rest.len() implies !text_lt(
            #[trigger] rest[j].0,
            #[trigger] rest[i].0,
        ) by {
            assert(rest[i] == s[i + 1] && rest[j] == s[j + 1]);
        }
        lemma_insert_text_ascending(rest, x);
        lemma_insert_text_members(rest, x, false);
        let t = insert_text(rest, x, false);
        assert(r =~= seq![s[0]] + t);
        assert forall|i: int, j: int| 0 <= i < j < r.len() implies !text_lt(#[trigger] r[j].0, #[trigger] r[i].0) by {
            if i == 0 {
                assert(r[j] == t[j - 1]);
                if t[j - 1] != x {
                    let k = choose|k: int| 0 <= k < rest.len() && rest[k] == t[j - 1];
                    assert(rest[k] == s[k + 1]);
                    assert(!text_lt(s[k + 1].0, s[0].0));
                }
            } else {
                assert(r[i] == t[i - 1] && r[j] == t[j - 1]);
            }
        }
    } else {
        assert(r =~= seq![x] + s);
        assert forall|i: int, j: int| 0 <= i < j < r.len() implies !text_lt(#[trigger] r[j].0, #[trigger] r[i].0) by {
            if i == 0 {
                assert(r[j] == s[j - 1]);
                if text_lt(s[j - 1].0, x.0) {
                    lemma_text_lt_transitive(s[j - 1].0, x.0, s[0].0);
                    if j - 1 == 0 {
                        lemma_text_lt_irreflexive(s[0].0);
                    }
                }
            } else {
                assert(r[i] == s[i - 1] && r[j] == s[j - 1]);
            }
        }
    }
}

/// Sorting by text, smallest first, leaves the keys in ascending order.
pub proof fn lemma_sorted_text_ascending<T>(s: Seq<(Seq<char>, T)>)
    ensures
        keys_ascending(sorted_text(s, false)),
    decreases s.len(),
{
    if s.len() > 0 {
        lemma_sorted_text_ascending(s.drop_last());
        lemma_insert_text_ascending(sorted_text(s.drop_last(), false), s.last());
    }
}

} // verus!
