//! Character-sequence utilities shared by the parsers of this crate.

use vstd::prelude::*;

verus! {

broadcast use vstd::string::group_string_axioms;

/// `p` occurs in `s` starting at position `i`.
pub open spec fn matches_at(s: Seq<char>, p: Seq<char>, i: int) -> bool {
    &&& 0 <= i
    &&& i + p.len() <= s.len()
    &&& s.subrange(i, i + p.len()) == p
}

/// `i` is the leftmost position at which `p` occurs in `s`.
pub open spec fn is_first_match(s: Seq<char>, p: Seq<char>, i: int) -> bool {
    &&& matches_at(s, p, i)
    &&& forall|j: int| 0 <= j < i ==> !matches_at(s, p, j)
}

/// `s` contains `p` somewhere.
pub open spec fn occurs_in(s: Seq<char>, p: Seq<char>) -> bool {
    exists|i: int| matches_at(s, p, i)
}

/// The leftmost position of `p` in `s`, if `p` occurs in `s`.
pub open spec fn first_index_of(s: Seq<char>, p: Seq<char>) -> Option<int> {
    if exists|i: int| is_first_match(s, p, i) {
        Some(choose|i: int| is_first_match(s, p, i))
    } else {
        None
    }
}

/// The part of `s` from position `i` to its end.
pub open spec fn suffix_from(s: Seq<char>, i: int) -> Seq<char> {
    s.subrange(i, s.len() as int)
}

/// Two leftmost matches are the same position.
pub proof fn lemma_first_match_unique(s: Seq<char>, p: Seq<char>, i: int, j: int)
    requires
        is_first_match(s, p, i),
        is_first_match(s, p, j),
    ensures
        i == j,
{
}

/// Wherever `p` occurs, a leftmost occurrence exists, no later than it.
pub proof fn lemma_first_match_exists(s: Seq<char>, p: Seq<char>, i: int)
    requires
        matches_at(s, p, i),
    ensures
        exists|k: int| k <= i && is_first_match(s, p, k),
    decreases i,
{
    if exists|j: int| 0 <= j < i && matches_at(s, p, j) {
        let j = choose|j: int| 0 <= j < i && matches_at(s, p, j);
        lemma_first_match_exists(s, p, j);
    } else {
        assert(is_first_match(s, p, i));
    }
}

/// The leftmost match, seen through `first_index_of`.
pub proof fn lemma_first_index_of_is(s: Seq<char>, p: Seq<char>, i: int)
    requires
        is_first_match(s, p, i),
    ensures
        first_index_of(s, p) == Some(i),
{
    let k = choose|k: int| is_first_match(s, p, k);
    lemma_first_match_unique(s, p, i, k);
}

/// When `p` occurs nowhere, `first_index_of` is `None`; otherwise it is a match.
pub proof fn lemma_first_index_of_cases(s: Seq<char>, p: Seq<char>)
    ensures
        first_index_of(s, p) is None <==> !occurs_in(s, p),
        first_index_of(s, p) matches Some(i) ==> is_first_match(s, p, i),
{
    if occurs_in(s, p) {
        let i = choose|i: int| matches_at(s, p, i);
        lemma_first_match_exists(s, p, i);
    }
}

/// Occurrences in a suffix are occurrences in the whole, shifted.
pub proof fn lemma_matches_in_suffix(s: Seq<char>, p: Seq<char>, k: int, j: int)
    requires
        0 <= k <= s.len(),
        0 <= j,
    ensures
        matches_at(suffix_from(s, k), p, j) == matches_at(s, p, k + j),
{
    if j + p.len() <= s.len() - k {
        assert(suffix_from(s, k).subrange(j, j + p.len()) =~= s.subrange(k + j, k + j + p.len()));
    }
}

/// No proper suffix of `p` is also a prefix of `p`: two occurrences of `p`
/// never overlap.
pub open spec fn borderless(p: Seq<char>) -> bool {
    forall|d: int| 0 < d < p.len() ==> #[trigger] p.subrange(d, p.len() as int) != p.subrange(0, p.len() - d)
}

/// A borderless pattern placed right after a text that does not contain it is
/// found first exactly there.
pub proof fn lemma_borderless_first_match(a: Seq<char>, p: Seq<char>, b: Seq<char>)
    requires
        !occurs_in(a, p),
        borderless(p),
    ensures
        is_first_match(a + p + b, p, a.len() as int),
{
    let s = a + p + b;
    let n: int = a.len() as int;
    let m: int = p.len() as int;
    assert(s.subrange(n, n + m) =~= p);
    assert forall|j: int| 0 <= j < n implies !matches_at(s, p, j) by {
        if matches_at(s, p, j) {
            if j + m <= n {
                assert(a.subrange(j, j + m) =~= s.subrange(j, j + m));
                assert(matches_at(a, p, j));
            } else {
                let d: int = n - j;
                assert(s.subrange(j, j + m).subrange(d, m) =~= s.subrange(n, j + m));
                assert(s.subrange(n, j + m) =~= p.subrange(0, m - d));
                assert(p.subrange(d, m) == p.subrange(0, m - d));
            }
        }
    }
}

/// `String::push` of std: appends the character `c` to the end of `s`, as
/// std documents it.
#[verifier::external_body]
pub(crate) fn push_char(s: &mut String, c: char)
    ensures
        final(s)@ == old(s)@.push(c),
{
    s.push(c);
}

/// Copies the characters of `s` into a vector.
pub fn chars_of(s: &str) -> (v: Vec<char>)
    ensures
        v@ == s@,
{
    let mut v: Vec<char> = Vec::new();
    for c in it: s.chars()
        invariant
            v@ == it.seq().take(it.index()),
    {
        v.push(c);
    }
    v
}

/// Builds a string from the characters `v[from..to]`.
pub fn string_from(v: &[char], from: usize, to: usize) -> (s: String)
    requires
        from <= to <= v@.len(),
    ensures
        s@ == v@.subrange(from as int, to as int),
{
    let mut s = String::new();
    let mut i: usize = from;
    while i < to
        invariant
            from <= i <= to <= v@.len(),
            s@ == v@.subrange(from as int, i as int),
        decreases to - i,
    {
        push_char(&mut s, v[i]);
        assert(v@.subrange(from as int, i + 1) =~= v@.subrange(from as int, i as int).push(v@[i as int]));
        i = i + 1;
    }
    s
}

/// Builds a string from all characters of `v`.
pub fn string_of(v: &[char]) -> (s: String)
    ensures
        s@ == v@,
{
    let s = string_from(v, 0, v.len());
    assert(v@.subrange(0, v@.len() as int) =~= v@);
    s
}

/// Appends the characters of `v` to `s`.
pub fn append_chars(s: &mut String, v: &[char])
    ensures
        final(s)@ == old(s)@ + v@,
{
    let mut i: usize = 0;
    while i < v.len()
        invariant
            i <= v@.len(),
            s@ == old(s)@ + v@.subrange(0, i as int),
        decreases v.len() - i,
    {
        push_char(s, v[i]);
        assert(v@.subrange(0, i + 1) =~= v@.subrange(0, i as int).push(v@[i as int]));
        i = i + 1;
    }
    assert(v@.subrange(0, v@.len() as int) =~= v@);
}

/// Whether `a[from..to]` is exactly `b`.
pub fn range_equals(a: &[char], from: usize, to: usize, b: &[char]) -> (r: bool)
    requires
        from <= to <= a@.len(),
    ensures
        r == (a@.subrange(from as int, to as int) == b@),
{
    if to - from != b.len() {
        return false;
    }
    let mut k: usize = 0;
    while k < b.len()
        invariant
            from <= to <= a@.len(),
            to - from == b@.len(),
            k <= b@.len(),
            forall|t: int| 0 <= t < k ==> a@[from + t] == b@[t],
        decreases b.len() - k,
    {
        if a[from + k] != b[k] {
            assert(a@.subrange(from as int, to as int)[k as int] != b@[k as int]);
            return false;
        }
        k = k + 1;
    }
    assert(a@.subrange(from as int, to as int) =~= b@);
    true
}

/// Whether `pat` occurs in `hay` at position `i`.
pub fn matches_at_exec(hay: &[char], pat: &[char], i: usize) -> (r: bool)
    ensures
        r == matches_at(hay@, pat@, i as int),
{
    if pat.len() > hay.len() || i > hay.len() - pat.len() {
        return false;
    }
    let mut k: usize = 0;
    while k < pat.len()
        invariant
            i + pat@.len() <= hay@.len(),
            hay@.len() == hay.len(),
            k <= pat@.len(),
            forall|t: int| 0 <= t < k ==> hay@[i + t] == pat@[t],
        decreases pat.len() - k,
    {
        assert(i + k < hay@.len());
        if hay[i + k] != pat[k] {
            assert(hay@.subrange(i as int, i + pat@.len())[k as int] != pat@[k as int]);
            return false;
        }
        k = k + 1;
    }
    assert(hay@.subrange(i as int, i + pat@.len()) =~= pat@);
    true
}

/// The leftmost position at or after `start` at which `pat` occurs in `hay`.
pub fn find_from(hay: &[char], pat: &[char], start: usize) -> (r: Option<usize>)
    requires
        start <= hay@.len(),
    ensures
        r is None <==> first_index_of(suffix_from(hay@, start as int), pat@) is None,
        r matches Some(k) ==> {
            &&& start <= k
            &&& k + pat@.len() <= hay@.len()
            &&& first_index_of(suffix_from(hay@, start as int), pat@) == Some(k - start)
        },
{
    let ghost sub = suffix_from(hay@, start as int);
    if pat.len() <= hay.len() && start <= hay.len() - pat.len() {
        let last: usize = hay.len() - pat.len();
        let mut i: usize = start;
        loop
            invariant
                start <= i <= last,
                last + pat@.len() == hay@.len(),
                sub == suffix_from(hay@, start as int),
                forall|j: int| start <= j < i ==> !matches_at(hay@, pat@, j),
            ensures
                forall|j: int| start <= j <= last ==> !matches_at(hay@, pat@, j),
            decreases last - i,
        {
            if matches_at_exec(hay, pat, i) {
                proof {
                    lemma_matches_in_suffix(hay@, pat@, start as int, i - start);
                    assert forall|j: int| 0 <= j < i - start implies !matches_at(sub, pat@, j) by {
                        lemma_matches_in_suffix(hay@, pat@, start as int, j);
                        assert(!matches_at(hay@, pat@, start + j));
                    }
                    lemma_first_index_of_is(sub, pat@, i - start);
                }
                return Some(i);
            }
            if i == last {
                break;
            }
            i = i + 1;
        }
    }
    proof {
        assert forall|j: int| !matches_at(sub, pat@, j) by {
            if 0 <= j {
                lemma_matches_in_suffix(hay@, pat@, start as int, j);
                assert(!matches_at(hay@, pat@, start + j));
            }
        }
        lemma_first_index_of_cases(sub, pat@);
    }
    None
}

} // verus!
