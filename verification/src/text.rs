use vstd::prelude::*;

verus! {

/// Unicode `White_Space` code points: the characters that `char::is_whitespace`
/// accepts and that `str::trim` removes.
pub open spec fn is_white_space(c: char) -> bool {
    let u = c as u32;
    ||| 0x09 <= u <= 0x0d
    ||| u == 0x20
    ||| u == 0x85
    ||| u == 0xa0
    ||| u == 0x1680
    ||| 0x2000 <= u <= 0x200a
    ||| u == 0x2028
    ||| u == 0x2029
    ||| u == 0x202f
    ||| u == 0x205f
    ||| u == 0x3000
}

/// Whether `c` is Unicode white space.
pub fn is_whitespace_char(c: char) -> (r: bool)
    ensures
        r == is_white_space(c),
{
    let u = c as u32;
    (0x09 <= u && u <= 0x0d) || u == 0x20 || u == 0x85 || u == 0xa0 || u == 0x1680 || (0x2000
        <= u && u <= 0x200a) || u == 0x2028 || u == 0x2029 || u == 0x202f || u == 0x205f || u
        == 0x3000
}

/// `s` without its leading white space.
pub open spec fn trim_start(s: Seq<char>) -> Seq<char>
    decreases s.len(),
{
    if s.len() > 0 && is_white_space(s[0]) {
        trim_start(s.drop_first())
    } else {
        s
    }
}

/// `s` without its trailing white space.
pub open spec fn trim_end(s: Seq<char>) -> Seq<char>
    decreases s.len(),
{
    if s.len() > 0 && is_white_space(s.last()) {
        trim_end(s.drop_last())
    } else {
        s
    }
}

/// `s` without white space at either end, as `str::trim` gives it.
pub open spec fn trim(s: Seq<char>) -> Seq<char> {
    trim_end(trim_start(s))
}

/// `s` without every trailing occurrence of `c`, as `str::trim_end_matches` gives it
/// for a single character.
pub open spec fn strip_trailing(s: Seq<char>, c: char) -> Seq<char>
    decreases s.len(),
{
    if s.len() > 0 && s.last() == c {
        strip_trailing(s.drop_last(), c)
    } else {
        s
    }
}

/// `p` occurs in `s` starting at index `k`.
pub open spec fn occurs_at(s: Seq<char>, p: Seq<char>, k: int) -> bool {
    &&& 0 <= k
    &&& k + p.len() <= s.len()
    &&& s.subrange(k, k + p.len()) == p
}

/// `p` occurs somewhere in `s`.
pub open spec fn contains_seq(s: Seq<char>, p: Seq<char>) -> bool {
    exists|k: int| occurs_at(s, p, k)
}

/// The part of `s` after the last occurrence of `p`, or all of `s` where `p` does
/// not occur.
pub open spec fn after_last(s: Seq<char>, p: Seq<char>) -> Seq<char> {
    if contains_seq(s, p) {
        let k = choose|k: int| occurs_at(s, p, k) && forall|j: int| occurs_at(s, p, j) ==> j <= k;
        s.subrange(k + p.len(), s.len() as int)
    } else {
        s
    }
}

/// `t` is a contiguous part of `s`.
pub open spec fn is_infix(t: Seq<char>, s: Seq<char>) -> bool {
    exists|i: int, j: int| 0 <= i <= j <= s.len() && t == s.subrange(i, j)
}

proof fn lemma_trim_start_shape(s: Seq<char>)
    ensures
        exists|i: int| 0 <= i <= s.len() && trim_start(s) == s.subrange(i, s.len() as int),
        trim_start(s).len() > 0 ==> !is_white_space(trim_start(s)[0]),
    decreases s.len(),
{
    if s.len() > 0 && is_white_space(s[0]) {
        lemma_trim_start_shape(s.drop_first());
        let i = choose|i: int|
            0 <= i <= s.drop_first().len() && trim_start(s.drop_first()) == s.drop_first().subrange(
                i,
                s.drop_first().len() as int,
            );
        assert(s.drop_first().subrange(i, s.drop_first().len() as int) == s.subrange(
            i + 1,
            s.len() as int,
        ));
    } else {
        assert(s == s.subrange(0, s.len() as int));
    }
}

proof fn lemma_trim_end_shape(s: Seq<char>)
    ensures
        exists|j: int| 0 <= j <= s.len() && trim_end(s) == s.subrange(0, j),
        trim_end(s).len() > 0 ==> !is_white_space(trim_end(s).last()),
    decreases s.len(),
{
    if s.len() > 0 && is_white_space(s.last()) {
        lemma_trim_end_shape(s.drop_last());
        let j = choose|j: int|
            0 <= j <= s.drop_last().len() && trim_end(s.drop_last()) == s.drop_last().subrange(0, j);
        assert(s.drop_last().subrange(0, j) == s.subrange(0, j));
    } else {
        assert(s == s.subrange(0, s.len() as int));
    }
}

/// Trimming leaves a contiguous part of the text that neither starts nor ends
/// with white space.
pub proof fn lemma_trim_shape(s: Seq<char>)
    ensures
        is_infix(trim(s), s),
        trim(s).len() > 0 ==> !is_white_space(trim(s)[0]) && !is_white_space(trim(s).last()),
{
    lemma_trim_start_shape(s);
    let t = trim_start(s);
    let i = choose|i: int| 0 <= i <= s.len() && t == s.subrange(i, s.len() as int);
    lemma_trim_end_shape(t);
    let j = choose|j: int| 0 <= j <= t.len() && trim_end(t) == t.subrange(0, j);
    assert(trim(s) == s.subrange(i, i + j));
    if trim(s).len() > 0 {
        assert(trim(s)[0] == t[0]);
    }
}

proof fn lemma_trim_start_removes_white(s: Seq<char>)
    ensures
        exists|i: int|
            0 <= i <= s.len() && trim_start(s) == s.subrange(i, s.len() as int) && forall|k: int|
                0 <= k < i ==> is_white_space(#[trigger] s[k]),
    decreases s.len(),
{
    if s.len() > 0 && is_white_space(s[0]) {
        let d = s.drop_first();
        lemma_trim_start_removes_white(d);
        let i = choose|i: int|
            0 <= i <= d.len() && trim_start(d) == d.subrange(i, d.len() as int) && forall|k: int|
                0 <= k < i ==> is_white_space(#[trigger] d[k]);
        assert(d.subrange(i, d.len() as int) == s.subrange(i + 1, s.len() as int));
        assert forall|k: int| 0 <= k < i + 1 implies is_white_space(#[trigger] s[k]) by {
            if k > 0 {
                assert(s[k] == d[k - 1]);
            }
        }
    } else {
        assert(s == s.subrange(0, s.len() as int));
    }
}

proof fn lemma_trim_end_removes_white(s: Seq<char>)
    ensures
        exists|j: int|
            0 <= j <= s.len() && trim_end(s) == s.subrange(0, j) && forall|k: int|
                j <= k < s.len() ==> is_white_space(#[trigger] s[k]),
    decreases s.len(),
{
    if s.len() > 0 && is_white_space(s.last()) {
        let d = s.drop_last();
        lemma_trim_end_removes_white(d);
        let j = choose|j: int|
            0 <= j <= d.len() && trim_end(d) == d.subrange(0, j) && forall|k: int|
                j <= k < d.len() ==> is_white_space(#[trigger] d[k]);
        assert(d.subrange(0, j) == s.subrange(0, j));
        assert forall|k: int| j <= k < s.len() implies is_white_space(#[trigger] s[k]) by {
            if k < d.len() {
                assert(s[k] == d[k]);
            }
        }
    } else {
        assert(s == s.subrange(0, s.len() as int));
    }
}

/// Trimming removes exactly the white space at both ends: the result is the
/// part `s[i..j]` where everything before `i` and from `j` on is white space,
/// and, unless empty, the part starts and ends with a character that is not.
pub proof fn lemma_trim_removes_only_outer_white_space(s: Seq<char>)
    ensures
        exists|i: int, j: int|
            0 <= i <= j <= s.len() && trim(s) == s.subrange(i, j) && (forall|k: int|
                0 <= k < i ==> is_white_space(#[trigger] s[k])) && (forall|k: int|
                j <= k < s.len() ==> is_white_space(#[trigger] s[k])) && (i < j ==> !is_white_space(
                s[i]) && !is_white_space(s[j - 1])),
{
    lemma_trim_start_removes_white(s);
    let t = trim_start(s);
    let i = choose|i: int|
        0 <= i <= s.len() && t == s.subrange(i, s.len() as int) && forall|k: int|
            0 <= k < i ==> is_white_space(#[trigger] s[k]);
    lemma_trim_end_removes_white(t);
    let j = choose|j: int|
        0 <= j <= t.len() && trim_end(t) == t.subrange(0, j) && forall|k: int|
            j <= k < t.len() ==> is_white_space(#[trigger] t[k]);
    lemma_trim_shape(s);
    assert(trim(s) == s.subrange(i, i + j));
    assert forall|k: int| i + j <= k < s.len() implies is_white_space(#[trigger] s[k]) by {
        assert(s[k] == t[k - i]);
    }
    if i < i + j {
        assert(trim(s)[0] == s[i]);
        assert(trim(s).last() == s[i + j - 1]);
    }
}

/// The text after the last occurrence of `p`: where `s` is `x`, then `p`, then
/// `y`, and `p` occurs nowhere in `s` after the start of that occurrence, the
/// result is `y`; where `p` does not occur, the result is `s`.
pub proof fn lemma_after_last_splits_at_last_marker(x: Seq<char>, y: Seq<char>, p: Seq<char>)
    requires
        p.len() > 0,
        forall|j: int| j > x.len() ==> !occurs_at(x + p + y, p, j),
    ensures
        after_last(x + p + y, p) == y,
        !contains_seq(y, p) ==> after_last(y, p) == y,
{
    let s = x + p + y;
    assert(s.subrange(x.len() as int, x.len() + p.len() as int) == p);
    assert(occurs_at(s, p, x.len() as int));
    lemma_last_occurrence_exists(s, p, x.len() as int);
    let k = choose|k: int| occurs_at(s, p, k) && forall|j: int| occurs_at(s, p, j) ==> j <= k;
    assert(k == x.len());
    assert(s.subrange(k + p.len(), s.len() as int) == y);
}

/// Trimming twice is trimming once.
pub proof fn lemma_trim_idempotent(s: Seq<char>)
    ensures
        trim(trim(s)) == trim(s),
{
    lemma_trim_shape(s);
    let t = trim(s);
    if t.len() > 0 {
        assert(trim_start(t) == t);
        assert(trim_end(t) == t);
    } else {
        assert(trim_start(t) == t);
        assert(trim_end(t) == t);
    }
}

/// A text without trailing `c` characters does not end with `c`, and
/// stripping again changes nothing.
pub proof fn lemma_strip_trailing(s: Seq<char>, c: char)
    ensures
        strip_trailing(s, c).len() > 0 ==> strip_trailing(s, c).last() != c,
        strip_trailing(strip_trailing(s, c), c) == strip_trailing(s, c),
        is_infix(strip_trailing(s, c), s),
    decreases s.len(),
{
    if s.len() > 0 && s.last() == c {
        lemma_strip_trailing(s.drop_last(), c);
        let t = strip_trailing(s.drop_last(), c);
        let (i, j) = choose|i: int, j: int|
            0 <= i <= j <= s.drop_last().len() && t == s.drop_last().subrange(i, j);
        assert(t == s.subrange(i, j));
    } else {
        assert(s == s.subrange(0, s.len() as int));
    }
}

/// Stripping removes exactly the trailing run of `c`: the result is a prefix
/// `s[..j]` of `s`, every character from `j` on is `c`, and the result does not
/// end with `c`.
pub proof fn lemma_strip_trailing_removes_only_trailing(s: Seq<char>, c: char)
    ensures
        exists|j: int|
            0 <= j <= s.len() && strip_trailing(s, c) == s.subrange(0, j) && forall|k: int|
                j <= k < s.len() ==> #[trigger] s[k] == c,
        strip_trailing(s, c).len() > 0 ==> strip_trailing(s, c).last() != c,
    decreases s.len(),
{
    lemma_strip_trailing(s, c);
    if s.len() > 0 && s.last() == c {
        let d = s.drop_last();
        lemma_strip_trailing_removes_only_trailing(d, c);
        let j = choose|j: int|
            0 <= j <= d.len() && strip_trailing(d, c) == d.subrange(0, j) && forall|k: int|
                j <= k < d.len() ==> #[trigger] d[k] == c;
        assert(d.subrange(0, j) == s.subrange(0, j));
        assert forall|k: int| j <= k < s.len() implies #[trigger] s[k] == c by {
            if k < d.len() {
                assert(s[k] == d[k]);
            }
        }
    } else {
        assert(s == s.subrange(0, s.len() as int));
    }
}

/// A part of a text in which `p` does not occur holds no occurrence of `p` either.
pub proof fn lemma_infix_keeps_absence(t: Seq<char>, s: Seq<char>, p: Seq<char>)
    requires
        is_infix(t, s),
        !contains_seq(s, p),
    ensures
        !contains_seq(t, p),
{
    let (i, j) = choose|i: int, j: int| 0 <= i <= j <= s.len() && t == s.subrange(i, j);
    if contains_seq(t, p) {
        let k = choose|k: int| occurs_at(t, p, k);
        assert(s.subrange(i + k, i + k + p.len()) == t.subrange(k, k + p.len()));
        assert(occurs_at(s, p, i + k));
    }
}

proof fn lemma_occurrence_in_suffix(s: Seq<char>, p: Seq<char>, start: int, j: int)
    requires
        0 <= start <= s.len(),
        occurs_at(s.subrange(start, s.len() as int), p, j),
    ensures
        occurs_at(s, p, start + j),
{
    let t = s.subrange(start, s.len() as int);
    assert(s.subrange(start + j, start + j + p.len()) =~= t.subrange(j, j + p.len()));
}

proof fn lemma_last_occurrence_exists(s: Seq<char>, p: Seq<char>, k0: int)
    requires
        occurs_at(s, p, k0),
    ensures
        exists|k: int| occurs_at(s, p, k) && forall|j: int| occurs_at(s, p, j) ==> j <= k,
    decreases s.len() - k0,
{
    if exists|j: int| occurs_at(s, p, j) && j > k0 {
        let j = choose|j: int| occurs_at(s, p, j) && j > k0;
        lemma_last_occurrence_exists(s, p, j);
    } else {
        assert(occurs_at(s, p, k0) && forall|j: int| occurs_at(s, p, j) ==> j <= k0);
    }
}

/// After the last occurrence of a non-empty `p`, `p` does not occur.
pub proof fn lemma_after_last_is_free(s: Seq<char>, p: Seq<char>)
    requires
        p.len() > 0,
    ensures
        !contains_seq(after_last(s, p), p),
        is_infix(after_last(s, p), s),
{
    if contains_seq(s, p) {
        let k0 = choose|k: int| occurs_at(s, p, k);
        lemma_last_occurrence_exists(s, p, k0);
        let k = choose|k: int| occurs_at(s, p, k) && forall|j: int| occurs_at(s, p, j) ==> j <= k;
        let t = s.subrange(k + p.len(), s.len() as int);
        assert(after_last(s, p) == t);
        assert(is_infix(t, s));
        if contains_seq(t, p) {
            let j = choose|j: int| occurs_at(t, p, j);
            lemma_occurrence_in_suffix(s, p, k + p.len(), j);
        }
    } else {
        assert(s == s.subrange(0, s.len() as int));
    }
}

/// Appends one character to `s` (`String::push`).
#[verifier::external_body]
pub(crate) fn push_char(s: &mut String, c: char)
    ensures
        final(s)@ == old(s)@.push(c),
{
    s.push(c);
}

/// The characters of `s`, in order.
pub fn chars_of(s: &str) -> (r: Vec<char>)
    ensures
        r@ == s@,
{
    broadcast use vstd::string::axiom_spec_iter;

    let mut r: Vec<char> = Vec::new();
    for c in it: s.chars()
        invariant
            it.seq() == s@,
            r@ == s@.take(it.index() as int),
    {
        r.push(c);
        assert(r@ == s@.take(it.index() + 1));
    }
    assert(s@.take(s@.len() as int) == s@);
    r
}


/// The characters `v[lo..hi]` as a `String`.
pub fn string_from_range(v: &Vec<char>, lo: usize, hi: usize) -> (r: String)
    requires
        lo <= hi <= v@.len(),
    ensures
        r@ == v@.subrange(lo as int, hi as int),
{
    let mut r = String::new();
    let mut i = lo;
    while i < hi
        invariant
            lo <= i <= hi <= v@.len(),
            r@ == v@.subrange(lo as int, i as int),
        decreases hi - i,
    {
        push_char(&mut r, v[i]);
        assert(r@ == v@.subrange(lo as int, i + 1));
        i += 1;
    }
    r
}

/// `s` without white space at either end (`str::trim`).
pub fn trim_str(s: &str) -> (r: String)
    ensures
        r@ == trim(s@),
{
    let v = chars_of(s);
    let n = v.len();
    let mut i: usize = 0;
    assert(v@.subrange(0, n as int) == v@);
    while i < n && is_whitespace_char(v[i])
        invariant
            0 <= i <= n,
            n == v@.len(),
            v@ == s@,
            trim_start(s@) == trim_start(v@.subrange(i as int, n as int)),
        decreases n - i,
    {
        assert(v@.subrange(i as int, n as int).drop_first() == v@.subrange(i + 1, n as int));
        i += 1;
    }
    assert(trim_start(s@) == v@.subrange(i as int, n as int));
    let mut j: usize = n;
    while j > i && is_whitespace_char(v[j - 1])
        invariant
            i <= j <= n,
            n == v@.len(),
            trim(s@) == trim_end(v@.subrange(i as int, j as int)),
        decreases j,
    {
        assert(v@.subrange(i as int, j as int).drop_last() == v@.subrange(i as int, j - 1));
        j -= 1;
    }
    string_from_range(&v, i, j)
}

/// `s` without every trailing `c` (`str::trim_end_matches` with one character).
pub fn strip_trailing_str(s: &str, c: char) -> (r: String)
    ensures
        r@ == strip_trailing(s@, c),
{
    let v = chars_of(s);
    let n = v.len();
    let mut j: usize = n;
    assert(v@.subrange(0, n as int) == v@);
    while j > 0 && v[j - 1] == c
        invariant
            j <= n,
            n == v@.len(),
            v@ == s@,
            strip_trailing(s@, c) == strip_trailing(v@.subrange(0, j as int), c),
        decreases j,
    {
        assert(v@.subrange(0, j as int).drop_last() == v@.subrange(0, j - 1));
        j -= 1;
    }
    string_from_range(&v, 0, j)
}

/// Whether `p` occurs in `v` at index `k`.
pub fn occurs_at_exec(v: &Vec<char>, p: &Vec<char>, k: usize) -> (r: bool)
    ensures
        r == occurs_at(v@, p@, k as int),
{
    if p.len() > v.len() || k > v.len() - p.len() {
        return false;
    }
    let m = p.len();
    let vlen = v.len();
    let mut t: usize = 0;
    while t < m
        invariant
            t <= m,
            vlen == v@.len(),
            m == p@.len(),
            k + m <= v@.len(),
            forall|u: int| 0 <= u < t ==> v@[k + u] == p@[u],
        decreases m - t,
    {
        if v[k + t] != p[t] {
            assert(v@.subrange(k as int, k + m)[t as int] != p@[t as int]);
            return false;
        }
        t += 1;
    }
    assert(v@.subrange(k as int, k + m) == p@);
    true
}

/// The part of `s` after the last occurrence of `p`, or all of `s` where `p`
/// does not occur. For a pattern that cannot overlap itself, such as the
/// thinking marker, this is `s.split(p).last()`; for one that can, the two may
/// differ.
pub fn after_last_str(s: &str, p: &str) -> (r: String)
    ensures
        r@ == after_last(s@, p@),
{
    let v = chars_of(s);
    let pv = chars_of(p);
    let n = v.len();
    let m = pv.len();
    if m > n {
        assert(!contains_seq(s@, p@));
        assert(v@.subrange(0, n as int) == v@);
        return string_from_range(&v, 0, n);
    }
    let mut k: usize = n - m;
    loop
        invariant
            k <= n - m,
            n == v@.len(),
            m == pv@.len(),
            m <= n,
            v@ == s@,
            pv@ == p@,
            forall|j: int| k < j ==> !occurs_at(s@, p@, j),
        decreases k,
    {
        if occurs_at_exec(&v, &pv, k) {
            assert(occurs_at(s@, p@, k as int));
            assert(forall|j: int| occurs_at(s@, p@, j) ==> j <= k);
            assert(contains_seq(s@, p@));
            return string_from_range(&v, k + m, n);
        }
        if k == 0 {
            assert(!contains_seq(s@, p@));
            assert(v@.subrange(0, n as int) == v@);
            return string_from_range(&v, 0, n);
        }
        k -= 1;
    }
}

} // verus!
