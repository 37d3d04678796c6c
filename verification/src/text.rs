//! Character-level text helpers with specifications over `Seq<char>`.

use vstd::prelude::*;

verus! {

/// The characters of `s`, in order.
pub fn chars_of(s: &str) -> (v: Vec<char>)
    ensures
        v@ == s@,
{
    let mut v: Vec<char> = Vec::new();
    for c in it: s.chars()
        invariant
            v@ == it.seq().take(it.index() as int),
    {
        v.push(c);
    }
    assert(v@ =~= s@);
    v
}

/// `String::push`: appends one character.
#[verifier::external_body]
pub(crate) fn push_char(s: &mut String, c: char)
    ensures
        final(s)@ == old(s)@.push(c),
{
    s.push(c);
}

/// A `String` holding exactly the characters of `v`.
pub fn string_of(v: &[char]) -> (s: String)
    ensures
        s@ == v@,
{
    let mut s = String::new();
    let mut i: usize = 0;
    while i < v.len()
        invariant
            i <= v@.len(),
            s@ == v@.take(i as int),
        decreases v@.len() - i,
    {
        push_char(&mut s, v[i]);
        assert(v@.take(i as int).push(v@[i as int]) =~= v@.take(i + 1));
        i = i + 1;
    }
    assert(v@.take(v@.len() as int) =~= v@);
    s
}

/// Appends all characters of `v` to `s`.
pub fn push_chars(s: &mut String, v: &[char])
    ensures
        final(s)@ == old(s)@ + v@,
{
    let mut i: usize = 0;
    while i < v.len()
        invariant
            i <= v@.len(),
            s@ == old(s)@ + v@.take(i as int),
        decreases v@.len() - i,
    {
        push_char(s, v[i]);
        assert(old(s)@ + v@.take(i as int).push(v@[i as int]) =~= old(s)@ + v@.take(i + 1));
        i = i + 1;
    }
    assert(v@.take(v@.len() as int) =~= v@);
}

/// The Unicode `White_Space` property, which `char::is_whitespace` tests.
pub open spec fn is_ws(c: char) -> bool {
    let u = c as u32;
    ||| 0x09 <= u <= 0x0d
    ||| u == 0x20
    ||| u == 0x85
    ||| u == 0xa0
    ||| u == 0x1680
    ||| 0x2000 <= u <= 0x200a
    ||| u == 0x2028
    ||| u == 0x2029
    ||| u == 0x202f
    ||| u == 0x205f
    ||| u == 0x3000
}

/// Executable `is_ws`.
pub fn is_whitespace(c: char) -> (b: bool)
    ensures
        b == is_ws(c),
{
    let u = c as u32;
    (0x09 <= u && u <= 0x0d) || u == 0x20 || u == 0x85 || u == 0xa0 || u == 0x1680 || (0x2000
        <= u && u <= 0x200a) || u == 0x2028 || u == 0x2029 || u == 0x202f || u == 0x205f || u
        == 0x3000
}

/// `s` without leading whitespace.
pub open spec fn trim_start(s: Seq<char>) -> Seq<char>
    decreases s.len(),
{
    if s.len() > 0 && is_ws(s[0]) {
        trim_start(s.drop_first())
    } else {
        s
    }
}

/// `s` without trailing whitespace.
pub open spec fn trim_end(s: Seq<char>) -> Seq<char>
    decreases s.len(),
{
    if s.len() > 0 && is_ws(s.last()) {
        trim_end(s.drop_last())
    } else {
        s
    }
}

/// `s` without leading and trailing whitespace (`str::trim`).
pub open spec fn trim(s: Seq<char>) -> Seq<char> {
    trim_end(trim_start(s))
}

/// Executable `trim_start`.
pub fn trim_start_chars(v: &[char]) -> (r: Vec<char>)
    ensures
        r@ == trim_start(v@),
{
    let mut i: usize = 0;
    assert(v@.subrange(0, v@.len() as int) =~= v@);
    while i < v.len() && is_whitespace(v[i])
        invariant
            i <= v@.len(),
            trim_start(v@) == trim_start(v@.subrange(i as int, v@.len() as int)),
        decreases v@.len() - i,
    {
        assert(v@.subrange(i as int, v@.len() as int).drop_first() =~= v@.subrange(
            i + 1,
            v@.len() as int,
        ));
        i = i + 1;
    }
    let mut r: Vec<char> = Vec::new();
    let mut j: usize = i;
    while j < v.len()
        invariant
            i <= j <= v@.len(),
            r@ == v@.subrange(i as int, j as int),
        decreases v@.len() - j,
    {
        r.push(v[j]);
        assert(v@.subrange(i as int, j as int).push(v@[j as int]) =~= v@.subrange(
            i as int,
            j + 1,
        ));
        j = j + 1;
    }
    r
}

/// Executable `trim_end`.
pub fn trim_end_chars(v: &[char]) -> (r: Vec<char>)
    ensures
        r@ == trim_end(v@),
{
    let mut k: usize = v.len();
    assert(v@.take(v@.len() as int) =~= v@);
    while k > 0 && is_whitespace(v[k - 1])
        invariant
            k <= v@.len(),
            trim_end(v@) == trim_end(v@.take(k as int)),
        decreases k,
    {
        assert(v@.take(k as int).drop_last() =~= v@.take(k - 1));
        k = k - 1;
    }
    let mut r: Vec<char> = Vec::new();
    let mut j: usize = 0;
    while j < k
        invariant
            j <= k <= v@.len(),
            r@ == v@.take(j as int),
        decreases k - j,
    {
        r.push(v[j]);
        assert(v@.take(j as int).push(v@[j as int]) =~= v@.take(j + 1));
        j = j + 1;
    }
    r
}

/// Executable `trim`.
pub fn trim_chars(v: &[char]) -> (r: Vec<char>)
    ensures
        r@ == trim(v@),
{
    let a = trim_start_chars(v);
    trim_end_chars(&a)
}

/// `p` is a prefix of `s`.
pub open spec fn has_prefix(s: Seq<char>, p: Seq<char>) -> bool {
    p.len() <= s.len() && s.take(p.len() as int) == p
}

/// `p` is a suffix of `s`.
pub open spec fn has_suffix(s: Seq<char>, p: Seq<char>) -> bool {
    p.len() <= s.len() && s.skip(s.len() - p.len()) == p
}

/// `p` occurs in `s` starting at index `i`.
pub open spec fn occurs_at(s: Seq<char>, p: Seq<char>, i: int) -> bool {
    0 <= i && i + p.len() <= s.len() && s.subrange(i, i + p.len()) == p
}

/// `p` occurs somewhere in `s` (`str::contains`).
pub open spec fn has_sub(s: Seq<char>, p: Seq<char>) -> bool {
    exists|i: int| #[trigger] occurs_at(s, p, i)
}

/// Whether `p` occurs at index `i` of `s`.
pub fn matches_at(s: &[char], p: &[char], i: usize) -> (b: bool)
    ensures
        b == occurs_at(s@, p@, i as int),
{
    if i > s.len() || p.len() > s.len() - i {
        return false;
    }
    let mut k: usize = 0;
    while k < p.len()
        invariant
            i + p@.len() <= s@.len(),
            s@.len() == s.len(),
            k <= p@.len(),
            forall|m: int| 0 <= m < k ==> s@[i + m] == p@[m],
        decreases p@.len() - k,
    {
        if s[i + k] != p[k] {
            assert(s@.subrange(i as int, i + p@.len())[k as int] != p@[k as int]);
            return false;
        }
        k = k + 1;
    }
    assert(s@.subrange(i as int, i + p@.len()) =~= p@);
    true
}

/// `str::starts_with`.
pub fn starts_with(s: &[char], p: &[char]) -> (b: bool)
    ensures
        b == has_prefix(s@, p@),
{
    let b = matches_at(s, p, 0);
    proof {
        if p@.len() <= s@.len() {
            assert(s@.subrange(0, p@.len() as int) =~= s@.take(p@.len() as int));
        }
    }
    b
}

/// `str::ends_with`.
pub fn ends_with(s: &[char], p: &[char]) -> (b: bool)
    ensures
        b == has_suffix(s@, p@),
{
    if p.len() > s.len() {
        return false;
    }
    let b = matches_at(s, p, s.len() - p.len());
    assert(s@.subrange(s@.len() - p@.len(), s@.len() as int) =~= s@.skip(s@.len() - p@.len()));
    b
}

/// The first index at which `p` occurs in `s` (`str::find`).
pub fn find(s: &[char], p: &[char]) -> (r: Option<usize>)
    ensures
        match r {
            Some(i) => occurs_at(s@, p@, i as int) && forall|j: int|
                0 <= j < i ==> !#[trigger] occurs_at(s@, p@, j),
            None => !has_sub(s@, p@),
        },
{
    if p.len() > s.len() {
        assert forall|j: int| !#[trigger] occurs_at(s@, p@, j) by {}
        return None;
    }
    let mut i: usize = 0;
    let last = s.len() - p.len();
    loop
        invariant
            last + p@.len() == s@.len(),
            i <= last,
            forall|j: int| 0 <= j < i ==> !#[trigger] occurs_at(s@, p@, j),
        ensures
            forall|j: int| 0 <= j <= last ==> !#[trigger] occurs_at(s@, p@, j),
        decreases last - i,
    {
        if matches_at(s, p, i) {
            return Some(i);
        }
        if i == last {
            break;
        }
        i = i + 1;
    }
    assert forall|j: int| !#[trigger] occurs_at(s@, p@, j) by {}
    None
}

/// `str::contains`.
pub fn contains(s: &[char], p: &[char]) -> (b: bool)
    ensures
        b == has_sub(s@, p@),
{
    match find(s, p) {
        Some(i) => true,
        None => false,
    }
}

/// Whether two character sequences are equal.
pub fn chars_eq(a: &[char], b: &[char]) -> (r: bool)
    ensures
        r == (a@ == b@),
{
    if a.len() != b.len() {
        return false;
    }
    let r = matches_at(a, b, 0);
    proof {
        if r {
            assert(a@.subrange(0, b@.len() as int) =~= a@);
        } else {
            assert(a@.subrange(0, b@.len() as int) =~= a@);
        }
    }
    r
}

/// `s` with a final `'\r'` removed, if there is one.
pub open spec fn strip_cr(s: Seq<char>) -> Seq<char> {
    if s.len() > 0 && s.last() == '\r' {
        s.drop_last()
    } else {
        s
    }
}

/// Scanning `s` from the left: the lines completed so far and the pending text.
pub open spec fn line_scan(s: Seq<char>) -> (Seq<Seq<char>>, Seq<char>)
    decreases s.len(),
{
    if s.len() == 0 {
        (Seq::empty(), Seq::empty())
    } else {
        let (done, cur) = line_scan(s.drop_last());
        if s.last() == '\n' {
            (done.push(strip_cr(cur)), Seq::empty())
        } else {
            (done, cur.push(s.last()))
        }
    }
}

/// The lines of `s` as `str::lines` yields them: split at `'\n'`, a `'\r'`
/// before the `'\n'` dropped, no empty line after a final `'\n'`.
pub open spec fn lines_of(s: Seq<char>) -> Seq<Seq<char>> {
    let (done, cur) = line_scan(s);
    if cur.len() == 0 {
        done
    } else {
        done.push(cur)
    }
}

/// Executable `lines_of`.
pub fn lines(v: &[char]) -> (r: Vec<Vec<char>>)
    ensures
        r@.len() == lines_of(v@).len(),
        forall|i: int| 0 <= i < r@.len() ==> #[trigger] r@[i]@ == lines_of(v@)[i],
{
    let mut done: Vec<Vec<char>> = Vec::new();
    let mut cur: Vec<char> = Vec::new();
    let mut i: usize = 0;
    while i < v.len()
        invariant
            i <= v@.len(),
            done@.len() == line_scan(v@.take(i as int)).0.len(),
            forall|k: int|
                0 <= k < done@.len() ==> #[trigger] done@[k]@ == line_scan(v@.take(i as int)).0[k],
            cur@ == line_scan(v@.take(i as int)).1,
        decreases v@.len() - i,
    {
        assert(v@.take(i + 1).drop_last() =~= v@.take(i as int));
        let c = v[i];
        if c == '\n' {
            let mut line = cur;
            if line.len() > 0 && line[line.len() - 1] == '\r' {
                line.pop();
            }
            done.push(line);
            cur = Vec::new();
        } else {
            cur.push(c);
        }
        i = i + 1;
    }
    assert(v@.take(v@.len() as int) =~= v@);
    if cur.len() > 0 {
        done.push(cur);
    }
    done
}

/// Scanning `s` from the left for separator `sep`: completed pieces and the pending piece.
pub open spec fn split_scan(s: Seq<char>, sep: char) -> (Seq<Seq<char>>, Seq<char>)
    decreases s.len(),
{
    if s.len() == 0 {
        (Seq::empty(), Seq::empty())
    } else {
        let (done, cur) = split_scan(s.drop_last(), sep);
        if s.last() == sep {
            (done.push(cur), Seq::empty())
        } else {
            (done, cur.push(s.last()))
        }
    }
}

/// The pieces of `s` between occurrences of `sep` (`str::split` with a `char`).
pub open spec fn split_of(s: Seq<char>, sep: char) -> Seq<Seq<char>> {
    let (done, cur) = split_scan(s, sep);
    done.push(cur)
}

/// Executable `split_of`.
pub fn split_char(v: &[char], sep: char) -> (r: Vec<Vec<char>>)
    ensures
        r@.len() == split_of(v@, sep).len(),
        forall|i: int| 0 <= i < r@.len() ==> #[trigger] r@[i]@ == split_of(v@, sep)[i],
{
    let mut done: Vec<Vec<char>> = Vec::new();
    let mut cur: Vec<char> = Vec::new();
    let mut i: usize = 0;
    while i < v.len()
        invariant
            i <= v@.len(),
            done@.len() == split_scan(v@.take(i as int), sep).0.len(),
            forall|k: int|
                0 <= k < done@.len() ==> #[trigger] done@[k]@ == split_scan(v@.take(i as int), sep).0[k],
            cur@ == split_scan(v@.take(i as int), sep).1,
        decreases v@.len() - i,
    {
        assert(v@.take(i + 1).drop_last() =~= v@.take(i as int));
        let c = v[i];
        if c == sep {
            done.push(cur);
            cur = Vec::new();
        } else {
            cur.push(c);
        }
        i = i + 1;
    }
    assert(v@.take(v@.len() as int) =~= v@);
    done.push(cur);
    done
}

/// The decimal digit character for `d < 10`.
pub open spec fn digit_char(d: nat) -> char {
    if d == 0 { '0' }
    else if d == 1 { '1' }
    else if d == 2 { '2' }
    else if d == 3 { '3' }
    else if d == 4 { '4' }
    else if d == 5 { '5' }
    else if d == 6 { '6' }
    else if d == 7 { '7' }
    else if d == 8 { '8' }
    else { '9' }
}

/// The decimal representation of `n`, as `Display` writes an unsigned integer.
pub open spec fn dec(n: nat) -> Seq<char>
    decreases n,
{
    if n < 10 {
        seq![digit_char(n)]
    } else {
        dec(n / 10).push(digit_char(n % 10))
    }
}

fn digit(d: u64) -> (c: char)
    requires
        d < 10,
    ensures
        c == digit_char(d as nat),
{
    if d == 0 { '0' }
    else if d == 1 { '1' }
    else if d == 2 { '2' }
    else if d == 3 { '3' }
    else if d == 4 { '4' }
    else if d == 5 { '5' }
    else if d == 6 { '6' }
    else if d == 7 { '7' }
    else if d == 8 { '8' }
    else { '9' }
}

/// The decimal representation of `n`.
pub fn dec_chars(n: u64) -> (r: Vec<char>)
    ensures
        r@ == dec(n as nat),
    decreases n,
{
    if n < 10 {
        let mut r: Vec<char> = Vec::new();
        r.push(digit(n));
        assert(r@ =~= seq![digit_char(n as nat)]);
        r
    } else {
        let mut r = dec_chars(n / 10);
        r.push(digit(n % 10));
        r
    }
}

/// Appends the decimal representation of `n` to `s`.
pub fn push_dec(s: &mut String, n: u64)
    ensures
        final(s)@ == old(s)@ + dec(n as nat),
{
    let d = dec_chars(n);
    push_chars(s, &d);
}

/// Number of non-overlapping occurrences of a non-empty `p` in `s`, searched
/// from the left (`str::matches(..).count()`).
pub open spec fn count_matches(s: Seq<char>, p: Seq<char>) -> nat
    decreases s.len(),
{
    if p.len() == 0 || s.len() < p.len() {
        0
    } else if s.take(p.len() as int) == p {
        1 + count_matches(s.skip(p.len() as int), p)
    } else {
        count_matches(s.drop_first(), p)
    }
}

/// Executable `count_matches`.
pub fn count_occurrences(s: &[char], p: &[char]) -> (n: usize)
    requires
        p@.len() > 0,
    ensures
        n == count_matches(s@, p@),
{
    let mut i: usize = 0;
    let mut n: usize = 0;
    assert(s@.skip(0) =~= s@);
    while i < s.len()
        invariant
            i <= s@.len(),
            p@.len() > 0,
            n <= i,
            count_matches(s@, p@) == n + count_matches(s@.skip(i as int), p@),
        decreases s@.len() - i,
    {
        let ghost rest = s@.skip(i as int);
        if p.len() > s.len() - i {
            assert(count_matches(rest, p@) == 0);
            i = s.len();
        } else if matches_at(s, p, i) {
            assert(rest.take(p@.len() as int) =~= s@.subrange(i as int, i + p@.len()));
            assert(rest.skip(p@.len() as int) =~= s@.skip(i + p@.len()));
            n = n + 1;
            i = i + p.len();
        } else {
            assert(rest.take(p@.len() as int) =~= s@.subrange(i as int, i + p@.len()));
            assert(rest.drop_first() =~= s@.skip(i + 1));
            i = i + 1;
        }
    }
    assert(s@.skip(i as int).len() == 0);
    n
}

/// The lowercase form of `s` as `str::to_lowercase` computes it.
pub uninterp spec fn lowercase_of(s: Seq<char>) -> Seq<char>;

/// `str::to_lowercase`. Its contract only names the result: Unicode case
/// mapping is not restated here.
#[verifier::external_body]
pub(crate) fn to_lowercase(s: &str) -> (r: String)
    ensures
        r@ == lowercase_of(s@),
{
    s.to_lowercase()
}

/// The first index at which `p` occurs in `s` (meaningful when `has_sub(s, p)`).
pub open spec fn first_at(s: Seq<char>, p: Seq<char>) -> int {
    choose|i: int| occurs_at(s, p, i) && forall|j: int| 0 <= j < i ==> !#[trigger] occurs_at(s, p, j)
}

/// An occurrence with no earlier one is the first occurrence.
pub proof fn lemma_first_at(s: Seq<char>, p: Seq<char>, i: int)
    requires
        occurs_at(s, p, i),
        forall|j: int| 0 <= j < i ==> !#[trigger] occurs_at(s, p, j),
    ensures
        first_at(s, p) == i,
{
    let k = first_at(s, p);
    assert(occurs_at(s, p, k) && forall|j: int| 0 <= j < k ==> !#[trigger] occurs_at(s, p, j));
    if k < i {
        assert(!occurs_at(s, p, k));
    }
    if i < k {
        assert(!occurs_at(s, p, i));
    }
}

/// The second piece of `s.split(p)` (`nth(1)`): the text after the first
/// occurrence of `p` up to the next one; `None` when `p` does not occur.
pub open spec fn second_piece(s: Seq<char>, p: Seq<char>) -> Option<Seq<char>> {
    if has_sub(s, p) {
        let rest = s.skip(first_at(s, p) + p.len());
        if has_sub(rest, p) {
            Some(rest.take(first_at(rest, p)))
        } else {
            Some(rest)
        }
    } else {
        None
    }
}

/// The characters of `s` from index `from` on.
pub fn tail_from(s: &[char], from: usize) -> (r: Vec<char>)
    requires
        from <= s@.len(),
    ensures
        r@ == s@.skip(from as int),
{
    let mut r: Vec<char> = Vec::new();
    let mut j: usize = from;
    while j < s.len()
        invariant
            from <= j <= s@.len(),
            r@ == s@.subrange(from as int, j as int),
        decreases s@.len() - j,
    {
        r.push(s[j]);
        assert(s@.subrange(from as int, j as int).push(s@[j as int]) =~= s@.subrange(from as int, j + 1));
        j = j + 1;
    }
    assert(s@.subrange(from as int, s@.len() as int) =~= s@.skip(from as int));
    r
}

/// The first `n` characters of `s`.
pub fn head(s: &[char], n: usize) -> (r: Vec<char>)
    requires
        n <= s@.len(),
    ensures
        r@ == s@.take(n as int),
{
    let mut r: Vec<char> = Vec::new();
    let mut j: usize = 0;
    while j < n
        invariant
            j <= n <= s@.len(),
            r@ == s@.take(j as int),
        decreases n - j,
    {
        r.push(s[j]);
        assert(s@.take(j as int).push(s@[j as int]) =~= s@.take(j + 1));
        j = j + 1;
    }
    r
}

/// Executable `second_piece`.
pub fn split_second(s: &[char], p: &[char]) -> (r: Option<Vec<char>>)
    ensures
        match r {
            Some(v) => second_piece(s@, p@) == Some(v@),
            None => second_piece(s@, p@) is None,
        },
{
    match find(s, p) {
        None => None,
        Some(i) => {
            proof {
                lemma_first_at(s@, p@, i as int);
                assert(s@.len() == s.len());
            }
            let rest = tail_from(s, i + p.len());
            match find(&rest, p) {
                None => Some(rest),
                Some(j) => {
                    proof {
                        lemma_first_at(rest@, p@, j as int);
                    }
                    Some(head(&rest, j))
                },
            }
        },
    }
}

/// The leading run of non-whitespace characters of `t`.
pub open spec fn word_prefix(t: Seq<char>) -> Seq<char>
    decreases t.len(),
{
    if t.len() > 0 && !is_ws(t[0]) {
        seq![t[0]] + word_prefix(t.drop_first())
    } else {
        Seq::empty()
    }
}

/// The first whitespace-separated word of `s` (`split_whitespace().next()`).
pub open spec fn first_word(s: Seq<char>) -> Option<Seq<char>> {
    if trim_start(s).len() > 0 {
        Some(word_prefix(trim_start(s)))
    } else {
        None
    }
}

/// Executable `first_word`.
pub fn first_word_of(s: &[char]) -> (r: Option<Vec<char>>)
    ensures
        match r {
            Some(v) => first_word(s@) == Some(v@),
            None => first_word(s@) is None,
        },
{
    let t = trim_start_chars(s);
    if t.len() == 0 {
        return None;
    }
    let mut n: usize = 0;
    assert(t@.skip(0) =~= t@);
    while n < t.len() && !is_whitespace(t[n])
        invariant
            n <= t@.len(),
            word_prefix(t@) == t@.take(n as int) + word_prefix(t@.skip(n as int)),
        decreases t@.len() - n,
    {
        assert(t@.skip(n as int)[0] == t@[n as int]);
        assert(t@.skip(n as int).drop_first() =~= t@.skip(n + 1));
        assert(t@.take(n + 1) =~= t@.take(n as int) + seq![t@[n as int]]);
        n = n + 1;
    }
    assert(word_prefix(t@.skip(n as int)) =~= Seq::<char>::empty());
    Some(head(&t, n))
}

/// The number of bytes of the UTF-8 encoding of `c`.
pub open spec fn utf8_width(c: char) -> nat {
    if (c as u32) < 0x80 {
        1
    } else if (c as u32) < 0x800 {
        2
    } else if (c as u32) < 0x10000 {
        3
    } else {
        4
    }
}

/// The number of bytes of the UTF-8 encoding of `s` (`str::len`).
pub open spec fn utf8_len(s: Seq<char>) -> nat
    decreases s.len(),
{
    if s.len() == 0 {
        0
    } else {
        utf8_len(s.drop_last()) + utf8_width(s.last())
    }
}

/// Whether byte offset `n` of the encoding of `s` falls between characters.
pub open spec fn is_byte_boundary(s: Seq<char>, n: int) -> bool {
    exists|k: int| 0 <= k <= s.len() && #[trigger] utf8_len(s.take(k)) == n
}

/// The characters whose encoding fills the first `n` bytes of `s`
/// (`&s[..n]`), meaningful when `n` is a boundary.
pub open spec fn byte_prefix(s: Seq<char>, n: int) -> Seq<char> {
    s.take(choose|k: int| 0 <= k <= s.len() && #[trigger] utf8_len(s.take(k)) == n)
}

/// Longer prefixes have longer encodings.
pub proof fn lemma_utf8_len_grows(s: Seq<char>, a: int, b: int)
    requires
        0 <= a < b <= s.len(),
    ensures
        utf8_len(s.take(a)) < utf8_len(s.take(b)),
    decreases b - a,
{
    assert(s.take(b).drop_last() =~= s.take(b - 1));
    if a < b - 1 {
        lemma_utf8_len_grows(s, a, b - 1);
    }
}

/// Executable `utf8_width`.
pub fn utf8_width_of(c: char) -> (w: usize)
    ensures
        w == utf8_width(c),
{
    let u = c as u32;
    if u < 0x80 {
        1
    } else if u < 0x800 {
        2
    } else if u < 0x10000 {
        3
    } else {
        4
    }
}

/// Whether the UTF-8 encoding of `s` is longer than `n` bytes.
pub fn byte_len_exceeds(s: &[char], n: usize) -> (b: bool)
    ensures
        b == (utf8_len(s@) > n),
{
    let mut acc: usize = 0;
    let mut i: usize = 0;
    while i < s.len()
        invariant
            i <= s@.len(),
            acc == utf8_len(s@.take(i as int)),
            acc <= n,
        decreases s@.len() - i,
    {
        assert(s@.take(i + 1).drop_last() =~= s@.take(i as int));
        let w = utf8_width_of(s[i]);
        if w > n - acc {
            proof {
                if i + 1 < s@.len() {
                    lemma_utf8_len_grows(s@, i + 1, s@.len() as int);
                }
                assert(s@.take(s@.len() as int) =~= s@);
            }
            return true;
        }
        acc = acc + w;
        i = i + 1;
    }
    assert(s@.take(s@.len() as int) =~= s@);
    false
}

/// The number of characters whose encoding fills exactly the first `n` bytes
/// of `s`; `None` when byte `n` falls inside a character or past the end.
pub fn chars_in_bytes(s: &[char], n: usize) -> (r: Option<usize>)
    ensures
        match r {
            Some(k) => k <= s@.len() && utf8_len(s@.take(k as int)) == n && byte_prefix(s@, n as int)
                == s@.take(k as int),
            None => !is_byte_boundary(s@, n as int),
        },
{
    let mut acc: usize = 0;
    let mut i: usize = 0;
    while i < s.len() && acc < n
        invariant
            i <= s@.len(),
            acc == utf8_len(s@.take(i as int)),
            acc <= n,
        decreases s@.len() - i,
    {
        assert(s@.take(i + 1).drop_last() =~= s@.take(i as int));
        let w = utf8_width_of(s[i]);
        if w > n - acc {
            proof {
                assert forall|k: int| 0 <= k <= s@.len() implies #[trigger] utf8_len(s@.take(k)) != n by {
                    if k < i {
                        lemma_utf8_len_grows(s@, k, i as int);
                    } else if k > i + 1 {
                        lemma_utf8_len_grows(s@, i + 1, k);
                    }
                }
            }
            return None;
        }
        acc = acc + w;
        i = i + 1;
    }
    if acc == n {
        proof {
            let k = choose|k: int| 0 <= k <= s@.len() && #[trigger] utf8_len(s@.take(k)) == n;
            if k < i {
                lemma_utf8_len_grows(s@, k, i as int);
            } else if k > i {
                lemma_utf8_len_grows(s@, i as int, k);
            }
        }
        Some(i)
    } else {
        proof {
            assert forall|k: int| 0 <= k <= s@.len() implies #[trigger] utf8_len(s@.take(k)) != n by {
                if k < i {
                    lemma_utf8_len_grows(s@, k, i as int);
                }
                assert(i == s@.len());
            }
        }
        None
    }
}


/// How many leading characters of `s` fit, encoded, in `n` bytes.
pub open spec fn fit_len(s: Seq<char>, n: int) -> nat
    decreases s.len(),
{
    if s.len() == 0 || utf8_width(s[0]) > n {
        0
    } else {
        1 + fit_len(s.drop_first(), n - utf8_width(s[0]))
    }
}

/// `s` cut at the last character boundary at or before byte `n`: its
/// longest prefix whose encoding fits in `n` bytes.
pub open spec fn prefix_within(s: Seq<char>, n: int) -> Seq<char> {
    s.take(fit_len(s, n) as int)
}

/// The cut prefix fits in `n` bytes, and one more character would not.
pub proof fn lemma_fit_len(s: Seq<char>, n: int)
    requires
        n >= 0,
    ensures
        fit_len(s, n) <= s.len(),
        utf8_len(prefix_within(s, n)) <= n,
        fit_len(s, n) < s.len() ==> utf8_len(s.take(fit_len(s, n) as int + 1)) > n,
    decreases s.len(),
{
    if s.len() == 0 {
        assert(s.take(0) =~= Seq::<char>::empty());
    } else {
        let c = seq![s[0]];
        assert(c.drop_last() =~= Seq::<char>::empty());
        assert(utf8_len(c.drop_last()) == 0);
        assert(c.last() == s[0]);
        assert(utf8_len(c) == utf8_width(s[0]));
        if utf8_width(s[0]) > n {
            assert(s.take(0) =~= Seq::<char>::empty());
            assert(s.take(1) =~= c);
        } else {
            let t = s.drop_first();
            let w = utf8_width(s[0]);
            lemma_fit_len(t, n - w);
            let k = fit_len(t, n - w) as int;
            assert(s.take(k + 1) =~= c + t.take(k));
            lemma_utf8_len_concat(c, t.take(k));
            if k < t.len() {
                assert(s.take(k + 2) =~= c + t.take(k + 1));
                lemma_utf8_len_concat(c, t.take(k + 1));
            }
        }
    }
}

/// Executable `fit_len`.
pub fn chars_within_bytes(s: &[char], n: usize) -> (k: usize)
    ensures
        k == fit_len(s@, n as int),
        k <= s@.len(),
{
    let mut acc: usize = 0;
    let mut i: usize = 0;
    assert(s@.skip(0) =~= s@);
    while i < s.len()
        invariant
            i <= s@.len(),
            acc <= n,
            fit_len(s@, n as int) == i + fit_len(s@.skip(i as int), n - acc),
        decreases s@.len() - i,
    {
        let w = utf8_width_of(s[i]);
        assert(s@.skip(i as int)[0] == s@[i as int]);
        assert(s@.skip(i as int).drop_first() =~= s@.skip(i + 1));
        if w > n - acc {
            return i;
        }
        acc = acc + w;
        i = i + 1;
    }
    assert(s@.skip(i as int).len() == 0);
    i
}


/// Appending a character that `p` does not hold adds no match of `p`.
pub proof fn lemma_count_matches_push(s: Seq<char>, x: char, p: Seq<char>)
    requires
        !p.contains(x),
    ensures
        count_matches(s.push(x), p) == count_matches(s, p),
    decreases s.len(),
{
    let sx = s.push(x);
    let n = p.len() as int;
    if n == 0 || sx.len() < n {
    } else if s.len() < n {
        assert(s.len() == n - 1);
        assert(sx.take(n) =~= sx);
        if sx.take(n) == p {
            assert(p[n - 1] == x);
            assert(p.contains(x));
        }
        assert(sx.drop_first().len() < n);
        assert(count_matches(sx.drop_first(), p) == 0);
        assert(count_matches(s, p) == 0);
    } else {
        assert(sx.take(n) =~= s.take(n));
        if s.take(n) == p {
            assert(sx.skip(n) =~= s.skip(n).push(x));
            lemma_count_matches_push(s.skip(n), x, p);
            assert(count_matches(sx, p) == 1 + count_matches(sx.skip(n), p));
            assert(count_matches(s, p) == 1 + count_matches(s.skip(n), p));
        } else {
            assert(sx.drop_first() =~= s.drop_first().push(x));
            lemma_count_matches_push(s.drop_first(), x, p);
            assert(count_matches(sx, p) == count_matches(sx.drop_first(), p));
            assert(count_matches(s, p) == count_matches(s.drop_first(), p));
        }
    }
}

/// Scanning a text whose scan ends between lines, then more text, gives the
/// lines of both scans.
pub proof fn lemma_line_scan_concat(a: Seq<char>, b: Seq<char>)
    requires
        line_scan(a).1.len() == 0,
    ensures
        line_scan(a + b) == (line_scan(a).0 + line_scan(b).0, line_scan(b).1),
    decreases b.len(),
{
    if b.len() == 0 {
        assert(a + b =~= a);
        assert(line_scan(a).0 + Seq::<Seq<char>>::empty() =~= line_scan(a).0);
        assert(line_scan(a).1 =~= Seq::<char>::empty());
    } else {
        lemma_line_scan_concat(a, b.drop_last());
        assert((a + b).drop_last() =~= a + b.drop_last());
        assert((a + b).last() == b.last());
        let (db, cb) = line_scan(b.drop_last());
        if b.last() == '\n' {
            assert((line_scan(a).0 + db).push(strip_cr(cb)) =~= line_scan(a).0 + db.push(strip_cr(cb)));
        }
    }
}

proof fn lemma_min_occurrence(s: Seq<char>, p: Seq<char>, i: int)
    requires
        occurs_at(s, p, i),
    ensures
        exists|k: int| occurs_at(s, p, k) && forall|j: int| 0 <= j < k ==> !#[trigger] occurs_at(s, p, j),
    decreases i,
{
    if exists|j: int| 0 <= j < i && #[trigger] occurs_at(s, p, j) {
        let j = choose|j: int| 0 <= j < i && #[trigger] occurs_at(s, p, j);
        lemma_min_occurrence(s, p, j);
    }
}

/// When `p` occurs in `s`, `first_at` is its first occurrence.
pub proof fn lemma_first_exists(s: Seq<char>, p: Seq<char>)
    requires
        has_sub(s, p),
    ensures
        occurs_at(s, p, first_at(s, p)),
        forall|j: int| 0 <= j < first_at(s, p) ==> !#[trigger] occurs_at(s, p, j),
{
    let i = choose|i: int| #[trigger] occurs_at(s, p, i);
    lemma_min_occurrence(s, p, i);
}

/// The pieces of `s` between the occurrences of a non-empty `p`, as
/// `str::split` with a string pattern yields them.
pub open spec fn split_str(s: Seq<char>, p: Seq<char>) -> Seq<Seq<char>>
    decreases s.len(),
{
    if p.len() > 0 && has_sub(s, p) {
        proof {
            lemma_first_exists(s, p);
        }
        seq![s.take(first_at(s, p))] + split_str(s.skip(first_at(s, p) + p.len()), p)
    } else {
        seq![s]
    }
}

/// Executable `split_str`.
pub fn split_on(s: &[char], p: &[char]) -> (r: Vec<Vec<char>>)
    requires
        p@.len() > 0,
    ensures
        r@.map_values(|v: Vec<char>| v@) == split_str(s@, p@),
    decreases s@.len(),
{
    match find(s, p) {
        Some(i) => {
            proof {
                lemma_first_at(s@, p@, i as int);
            }
            assert(i + p@.len() <= s@.len());
            assert(s@.len() == s.len() && p@.len() == p.len());
            let first = head(s, i);
            let rest = tail_from(s, i + p.len());
            let mut r: Vec<Vec<char>> = Vec::new();
            r.push(first);
            let tail = split_on(&rest, p);
            let ghost t = tail@;
            let mut tail = tail;
            r.append(&mut tail);
            assert(r@.map_values(|v: Vec<char>| v@) =~= seq![s@.take(i as int)] + t.map_values(|v: Vec<char>| v@));
            r
        },
        None => {
            let mut r: Vec<Vec<char>> = Vec::new();
            r.push(tail_from(s, 0));
            assert(s@.skip(0) =~= s@);
            assert(r@.map_values(|v: Vec<char>| v@) =~= seq![s@]);
            r
        },
    }
}

/// No more occurrences than characters.
pub proof fn lemma_count_matches_bound(s: Seq<char>, p: Seq<char>)
    requires
        p.len() > 0,
    ensures
        count_matches(s, p) <= s.len(),
    decreases s.len(),
{
    if s.len() >= p.len() {
        if s.take(p.len() as int) == p {
            lemma_count_matches_bound(s.skip(p.len() as int), p);
        } else {
            lemma_count_matches_bound(s.drop_first(), p);
        }
    }
}

/// The text of `s` before the first `c` (all of it when there is none).
pub open spec fn before_char(s: Seq<char>, c: char) -> Seq<char>
    decreases s.len(),
{
    if s.len() == 0 || s[0] == c {
        Seq::empty()
    } else {
        seq![s[0]] + before_char(s.drop_first(), c)
    }
}

/// Executable `before_char`.
pub fn before_char_of(s: &[char], c: char) -> (r: Vec<char>)
    ensures
        r@ == before_char(s@, c),
{
    let mut r: Vec<char> = Vec::new();
    let mut i: usize = 0;
    assert(s@.skip(0) =~= s@);
    while i < s.len() && s[i] != c
        invariant
            i <= s@.len(),
            before_char(s@, c) == r@ + before_char(s@.skip(i as int), c),
        decreases s@.len() - i,
    {
        assert(s@.skip(i as int).drop_first() =~= s@.skip(i + 1));
        assert(s@.skip(i as int)[0] == s@[i as int]);
        r.push(s[i]);
        assert(before_char(s@, c) == r@ + before_char(s@.skip(i + 1), c));
        i = i + 1;
    }
    r
}


/// `s` with each occurrence of the non-empty `p`, taken from the left without
/// overlap, replaced by `r` (`str::replace`).
pub open spec fn replace_all(s: Seq<char>, p: Seq<char>, r: Seq<char>) -> Seq<char>
    decreases s.len(),
{
    if s.len() == 0 {
        Seq::empty()
    } else if p.len() > 0 && occurs_at(s, p, 0) {
        r + replace_all(s.skip(p.len() as int), p, r)
    } else {
        seq![s[0]] + replace_all(s.drop_first(), p, r)
    }
}

proof fn lemma_occurs_in_skip(s: Seq<char>, p: Seq<char>, i: int)
    requires
        0 <= i <= s.len(),
    ensures
        occurs_at(s.skip(i), p, 0) == occurs_at(s, p, i),
{
    if occurs_at(s, p, i) {
        assert(s.skip(i).subrange(0, p.len() as int) =~= s.subrange(i, i + p.len()));
    }
    if occurs_at(s.skip(i), p, 0) {
        assert(s.skip(i).subrange(0, p.len() as int) =~= s.subrange(i, i + p.len()));
    }
}

/// Executable `replace_all`.
pub fn replace_all_of(s: &[char], p: &[char], r: &[char]) -> (out: Vec<char>)
    requires
        p@.len() > 0,
    ensures
        out@ == replace_all(s@, p@, r@),
{
    let mut out: Vec<char> = Vec::new();
    let mut i: usize = 0;
    assert(s@.skip(0) =~= s@);
    while i < s.len()
        invariant
            i <= s@.len(),
            p@.len() > 0,
            out@ + replace_all(s@.skip(i as int), p@, r@) == replace_all(s@, p@, r@),
        decreases s@.len() - i,
    {
        proof {
            lemma_occurs_in_skip(s@, p@, i as int);
        }
        if matches_at(s, p, i) {
            assert(s@.skip(i as int).skip(p@.len() as int) =~= s@.skip(i + p@.len()));
            let ghost before = out@;
            let mut k: usize = 0;
            while k < r.len()
                invariant
                    k <= r@.len(),
                    out@ == before + r@.take(k as int),
                decreases r@.len() - k,
            {
                assert(r@.take(k + 1) =~= r@.take(k as int).push(r@[k as int]));
                out.push(r[k]);
                k = k + 1;
            }
            assert(r@.take(r@.len() as int) =~= r@);
            assert(out@ + replace_all(s@.skip(i + p@.len()), p@, r@) =~= before + (r@ + replace_all(
                s@.skip(i + p@.len()),
                p@,
                r@,
            )));
            i = i + p.len();
        } else {
            assert(s@.skip(i as int).drop_first() =~= s@.skip(i + 1));
            assert(s@.skip(i as int)[0] == s@[i as int]);
            let ghost before = out@;
            out.push(s[i]);
            assert(out@ + replace_all(s@.skip(i + 1), p@, r@) =~= before + (seq![s@[i as int]] + replace_all(
                s@.skip(i + 1),
                p@,
                r@,
            )));
            i = i + 1;
        }
    }
    assert(s@.skip(i as int) =~= Seq::<char>::empty());
    assert(out@ + Seq::<char>::empty() =~= out@);
    out
}

/// `s` with `p` removed from its end as many times as it ends with it
/// (`str::trim_end_matches`).
pub open spec fn without_trailing(s: Seq<char>, p: Seq<char>) -> Seq<char>
    decreases s.len(),
{
    if p.len() > 0 && has_suffix(s, p) {
        without_trailing(s.take(s.len() - p.len()), p)
    } else {
        s
    }
}

/// Executable `without_trailing`.
pub fn without_trailing_of(s: &[char], p: &[char]) -> (r: Vec<char>)
    requires
        p@.len() > 0,
    ensures
        r@ == without_trailing(s@, p@),
{
    let mut n: usize = s.len();
    assert(s@.take(n as int) =~= s@);
    loop
        invariant
            n <= s@.len(),
            p@.len() > 0,
            without_trailing(s@, p@) == without_trailing(s@.take(n as int), p@),
        decreases n,
    {
        let mut k: usize = 0;
        let mut t: Vec<char> = Vec::new();
        while k < n
            invariant
                k <= n <= s@.len(),
                t@ == s@.take(k as int),
            decreases n - k,
        {
            t.push(s[k]);
            assert(t@ =~= s@.take(k + 1));
            k = k + 1;
        }
        assert(t@ =~= s@.take(n as int));
        if ends_with(&t, p) {
            assert(s@.take(n as int).take(n - p@.len()) =~= s@.take(n - p@.len()));
            n = n - p.len();
        } else {
            return t;
        }
    }
}


/// `before_char(s, c)` is a prefix of `s` that holds no `c`.
pub proof fn lemma_before_char(s: Seq<char>, c: char)
    ensures
        before_char(s, c).len() <= s.len(),
        forall|i: int| 0 <= i < before_char(s, c).len() ==> #[trigger] before_char(s, c)[i] == s[i],
        forall|i: int| 0 <= i < before_char(s, c).len() ==> #[trigger] before_char(s, c)[i] != c,
    decreases s.len(),
{
    if s.len() > 0 && s[0] != c {
        lemma_before_char(s.drop_first(), c);
        let r = before_char(s, c);
        assert(r =~= seq![s[0]] + before_char(s.drop_first(), c));
        assert forall|i: int| 0 <= i < r.len() implies #[trigger] r[i] == s[i] && r[i] != c by {
            if i > 0 {
                assert(r[i] == before_char(s.drop_first(), c)[i - 1]);
            }
        }
    }
}

/// Replacing a one-character `p` by a text without its character leaves no
/// occurrence of that character.
pub proof fn lemma_replace_all_removes(s: Seq<char>, p: Seq<char>, r: Seq<char>)
    requires
        p.len() == 1,
        forall|j: int| 0 <= j < r.len() ==> #[trigger] r[j] != p[0],
    ensures
        forall|i: int| 0 <= i < replace_all(s, p, r).len() ==> #[trigger] replace_all(s, p, r)[i] != p[0],
    decreases s.len(),
{
    if s.len() > 0 {
        if occurs_at(s, p, 0) {
            lemma_replace_all_removes(s.skip(1), p, r);
            let t = replace_all(s, p, r);
            let rest = replace_all(s.skip(1), p, r);
            assert(t == r + rest);
            assert forall|i: int| 0 <= i < t.len() implies #[trigger] t[i] != p[0] by {
                if i >= r.len() {
                    assert(t[i] == rest[i - r.len()]);
                }
            }
        } else {
            lemma_replace_all_removes(s.drop_first(), p, r);
            if s[0] == p[0] {
                assert(s.subrange(0, 1) =~= p);
            }
            let t = replace_all(s, p, r);
            let rest = replace_all(s.drop_first(), p, r);
            assert(t == seq![s[0]] + rest);
            assert forall|i: int| 0 <= i < t.len() implies #[trigger] t[i] != p[0] by {
                if i >= 1 {
                    assert(t[i] == rest[i - 1]);
                }
            }
        }
    }
}

/// The encoding of a concatenation is the two encodings one after the other.
pub proof fn lemma_utf8_len_concat(a: Seq<char>, b: Seq<char>)
    ensures
        utf8_len(a + b) == utf8_len(a) + utf8_len(b),
    decreases b.len(),
{
    if b.len() > 0 {
        lemma_utf8_len_concat(a, b.drop_last());
        assert((a + b).drop_last() =~= a + b.drop_last());
    } else {
        assert(a + b =~= a);
    }
}


/// A text occurs in any text that holds it between two others.
pub proof fn lemma_sub_between(a: Seq<char>, p: Seq<char>, b: Seq<char>)
    ensures
        has_sub(a + p + b, p),
{
    let s = a + p + b;
    assert(s.subrange(a.len() as int, (a.len() + p.len()) as int) =~= p);
    assert(occurs_at(s, p, a.len() as int));
}

/// An occurrence in a text is kept when text is added on either side.
pub proof fn lemma_sub_widen(a: Seq<char>, s: Seq<char>, b: Seq<char>, p: Seq<char>)
    requires
        has_sub(s, p),
    ensures
        has_sub(a + s + b, p),
{
    let i = choose|i: int| #[trigger] occurs_at(s, p, i);
    let t = a + s + b;
    assert(t.subrange(a.len() + i, a.len() + i + p.len()) =~= s.subrange(i, i + p.len()));
    assert(occurs_at(t, p, a.len() + i));
}

} // verus!
