use vstd::prelude::*;
use vstd::std_specs::iter::IteratorSpec;

verus! {

/// The last position in `lo..hi` that holds `c`, or -1.
pub open spec fn spec_rfind_char(s: Seq<char>, c: char, lo: int, hi: int) -> int
    decreases hi - lo,
{
    if hi <= lo {
        -1
    } else if s[hi - 1] == c {
        hi - 1
    } else {
        spec_rfind_char(s, c, lo, hi - 1)
    }
}

pub proof fn lemma_rfind_char_bounds(s: Seq<char>, c: char, lo: int, hi: int)
    ensures
        spec_rfind_char(s, c, lo, hi) == -1 || (lo <= spec_rfind_char(s, c, lo, hi) < hi
            && s[spec_rfind_char(s, c, lo, hi)] == c),
    decreases hi - lo,
{
    if hi > lo && s[hi - 1] != c {
        lemma_rfind_char_bounds(s, c, lo, hi - 1);
    }
}

/// The last position in `lo..hi` of `s` that holds `c`.
pub fn rfind_char(s: &str, c: char, lo: usize, hi: usize) -> (r: Option<usize>)
    requires
        lo <= hi <= s@.len(),
    ensures
        r matches Some(i) ==> i as int == spec_rfind_char(s@, c, lo as int, hi as int),
        r is None ==> spec_rfind_char(s@, c, lo as int, hi as int) == -1,
{
    let mut k: usize = hi;
    while k > lo
        invariant
            lo <= k <= hi <= s@.len(),
            spec_rfind_char(s@, c, lo as int, hi as int) == spec_rfind_char(s@, c, lo as int, k as int),
        decreases k - lo,
    {
        if s.get_char(k - 1) == c {
            return Some(k - 1);
        }
        k = k - 1;
    }
    None
}

/// Whether `s` holds `pat` at position `i`.
pub open spec fn spec_occurs_at(s: Seq<char>, pat: Seq<char>, i: int) -> bool {
    0 <= i && i + pat.len() <= s.len() && s.subrange(i, i + pat.len()) == pat
}

/// Whether `s` holds `pat` at position `i`.
pub fn occurs_at(s: &str, pat: &str, i: usize) -> (r: bool)
    requires
        s@.len() <= usize::MAX,
    ensures
        r == spec_occurs_at(s@, pat@, i as int),
{
    let n = s.unicode_len();
    let m = pat.unicode_len();
    if i > n || m > n - i {
        return false;
    }
    let mut j: usize = 0;
    while j < m
        invariant
            i + m <= n == s@.len(),
            m == pat@.len(),
            j <= m,
            forall|k: int| 0 <= k < j ==> s@[i + k] == pat@[k],
        decreases m - j,
    {
        if s.get_char(i + j) != pat.get_char(j) {
            assert(s@.subrange(i as int, i + m)[j as int] != pat@[j as int]);
            return false;
        }
        j = j + 1;
    }
    assert(s@.subrange(i as int, i + m) =~= pat@);
    true
}

/// `s` with every occurrence of `pat` replaced by `to`, scanning from the left
/// and never matching inside a replaced occurrence.
pub open spec fn spec_replace(s: Seq<char>, pat: Seq<char>, to: Seq<char>) -> Seq<char>
    decreases s.len(),
{
    if s.len() == 0 || pat.len() == 0 {
        s
    } else if spec_occurs_at(s, pat, 0) {
        to + spec_replace(s.subrange(pat.len() as int, s.len() as int), pat, to)
    } else {
        seq![s[0]] + spec_replace(s.subrange(1, s.len() as int), pat, to)
    }
}

/// `s` with every occurrence of `pat` replaced by `to`, left to right.
pub fn replace_all(s: &str, pat: &str, to: &str) -> (r: String)
    ensures
        r@ == spec_replace(s@, pat@, to@),
{
    let n = s.unicode_len();
    let m = pat.unicode_len();
    if m == 0 {
        return s.to_owned();
    }
    let mut r = String::new();
    let mut i: usize = 0;
    let mut start: usize = 0;
    assert(s@.subrange(0, n as int) =~= s@);
    assert(r@ + s@.subrange(0, 0) =~= Seq::<char>::empty());
    while i < n
        invariant
            n == s@.len(),
            m == pat@.len(),
            m > 0,
            start <= i <= n,
            r@ + s@.subrange(start as int, i as int) + spec_replace(s@.subrange(i as int, n as int), pat@, to@)
                == spec_replace(s@, pat@, to@),
        decreases n - i,
    {
        let ghost rest = s@.subrange(i as int, n as int);
        if occurs_at(s, pat, i) {
            assert(spec_occurs_at(rest, pat@, 0)) by {
                assert(rest.subrange(0, m as int) =~= s@.subrange(i as int, i + m));
            }
            assert(rest.subrange(m as int, rest.len() as int) =~= s@.subrange(i + m, n as int));
            r.append(s.substring_char(start, i));
            r.append(to);
            i = i + m;
            start = i;
            assert(s@.subrange(start as int, i as int) =~= Seq::<char>::empty());
        } else {
            assert(!spec_occurs_at(rest, pat@, 0)) by {
                if i + m <= n {
                    assert(rest.subrange(0, m as int) =~= s@.subrange(i as int, i + m));
                }
            }
            assert(rest.subrange(1, rest.len() as int) =~= s@.subrange(i + 1, n as int));
            assert(s@.subrange(start as int, i + 1) =~= s@.subrange(start as int, i as int) + seq![rest[0]]);
            i = i + 1;
        }
    }
    r.append(s.substring_char(start, n));
    assert(s@.subrange(n as int, n as int) =~= Seq::<char>::empty());
    r
}

} // verus!

verus! {

/// The characters of `s`, in order.
pub fn chars_of(s: &str) -> (r: Vec<char>)
    ensures
        r@ == s@,
{
    broadcast use vstd::string::axiom_spec_iter, vstd::string::next_postcondition;

    let mut it = s.chars();
    let mut r: Vec<char> = Vec::new();
    loop
        invariant
            r@ + it.remaining() == s@,
            it.obeys_prophetic_iter_laws(),
            it.decrease() is Some,
        decreases it.decrease()->0,
    {
        let ghost before = it.remaining();
        match it.next() {
            Some(c) => {
                r.push(c);
                assert(r@ + it.remaining() =~= s@) by {
                    assert(before =~= seq![c] + it.remaining());
                }
            },
            None => {
                assert(it.remaining().len() == 0);
                assert(r@ =~= s@);
                return r;
            },
        }
    }
}

/// Whether `c` has the Unicode White_Space property.
pub open spec fn is_whitespace(c: char) -> bool {
    ('\u{9}' <= c && c <= '\u{d}') || c == ' ' || c == '\u{85}' || c == '\u{a0}' || c == '\u{1680}'
        || ('\u{2000}' <= c && c <= '\u{200a}') || c == '\u{2028}' || c == '\u{2029}' || c == '\u{202f}'
        || c == '\u{205f}' || c == '\u{3000}'
}

fn char_is_whitespace(c: char) -> (r: bool)
    ensures
        r == is_whitespace(c),
{
    ('\u{9}' <= c && c <= '\u{d}') || c == ' ' || c == '\u{85}' || c == '\u{a0}' || c == '\u{1680}'
        || ('\u{2000}' <= c && c <= '\u{200a}') || c == '\u{2028}' || c == '\u{2029}' || c == '\u{202f}'
        || c == '\u{205f}' || c == '\u{3000}'
}

/// The first position at or after `i` that is not white space, or `s.len()`.
pub open spec fn trim_start_index(s: Seq<char>, i: int) -> int
    decreases s.len() - i,
{
    if i < 0 || i >= s.len() {
        s.len() as int
    } else if is_whitespace(s[i]) {
        trim_start_index(s, i + 1)
    } else {
        i
    }
}

/// One past the last position in `lo..hi` that is not white space, or `lo`.
pub open spec fn trim_end_index(s: Seq<char>, lo: int, hi: int) -> int
    decreases hi - lo,
{
    if hi <= lo {
        lo
    } else if is_whitespace(s[hi - 1]) {
        trim_end_index(s, lo, hi - 1)
    } else {
        hi
    }
}

/// `s` without leading and trailing white space.
pub open spec fn spec_trim(s: Seq<char>) -> Seq<char> {
    let a = trim_start_index(s, 0);
    s.subrange(a, trim_end_index(s, a, s.len() as int))
}

proof fn lemma_trim_bounds(s: Seq<char>, i: int, lo: int, hi: int)
    requires
        0 <= i <= s.len(),
        0 <= lo <= hi <= s.len(),
    ensures
        i <= trim_start_index(s, i) <= s.len(),
        lo <= trim_end_index(s, lo, hi) <= hi,
    decreases s.len() - i + hi - lo,
{
    if i < s.len() && is_whitespace(s[i]) {
        lemma_trim_bounds(s, i + 1, lo, hi);
    }
    if hi > lo && is_whitespace(s[hi - 1]) {
        lemma_trim_bounds(s, i, lo, hi - 1);
    }
}

/// `s` without leading and trailing white space.
pub fn trim<'a>(s: &'a str) -> (r: &'a str)
    ensures
        r@ == spec_trim(s@),
{
    let cs = chars_of(s);
    let n = cs.len();
    let mut a: usize = 0;
    while a < n && char_is_whitespace(cs[a])
        invariant
            n == s@.len(),
            cs@ == s@,
            a <= n,
            trim_start_index(s@, 0) == trim_start_index(s@, a as int),
        decreases n - a,
    {
        a = a + 1;
    }
    let mut b: usize = n;
    while b > a && char_is_whitespace(cs[b - 1])
        invariant
            n == s@.len(),
            cs@ == s@,
            a <= b <= n,
            a == trim_start_index(s@, 0),
            trim_end_index(s@, a as int, n as int) == trim_end_index(s@, a as int, b as int),
        decreases b - a,
    {
        b = b - 1;
    }
    s.substring_char(a, b)
}

/// Whether `s` holds `pat` at position `i`.
fn occurs_in_chars(s: &Vec<char>, pat: &Vec<char>, i: usize) -> (r: bool)
    ensures
        r == spec_occurs_at(s@, pat@, i as int),
{
    let n = s.len();
    let m = pat.len();
    if i > n || m > n - i {
        return false;
    }
    let mut j: usize = 0;
    while j < m
        invariant
            i + m <= n == s@.len(),
            m == pat@.len(),
            j <= m,
            forall|k: int| 0 <= k < j ==> s@[i + k] == pat@[k],
        decreases m - j,
    {
        if s[i + j] != pat[j] {
            assert(s@.subrange(i as int, i + m)[j as int] != pat@[j as int]);
            return false;
        }
        j = j + 1;
    }
    assert(s@.subrange(i as int, i + m) =~= pat@);
    true
}

/// The first position at or after `i` where `pat` occurs in `s`, or -1.
pub open spec fn spec_find_from(s: Seq<char>, pat: Seq<char>, i: int) -> int
    decreases s.len() + 1 - i,
{
    if i < 0 || i > s.len() {
        -1
    } else if spec_occurs_at(s, pat, i) {
        i
    } else {
        spec_find_from(s, pat, i + 1)
    }
}

/// The last position at or before `k` where `pat` occurs in `s`, or -1.
pub open spec fn spec_rfind_from(s: Seq<char>, pat: Seq<char>, k: int) -> int
    decreases k + 1,
{
    if k < 0 {
        -1
    } else if spec_occurs_at(s, pat, k) {
        k
    } else {
        spec_rfind_from(s, pat, k - 1)
    }
}

/// The last position where `pat` occurs in `s`, or -1.
pub open spec fn spec_rfind(s: Seq<char>, pat: Seq<char>) -> int {
    spec_rfind_from(s, pat, s.len() - pat.len())
}

proof fn lemma_find_bounds(s: Seq<char>, pat: Seq<char>, i: int)
    requires
        0 <= i,
    ensures
        spec_find_from(s, pat, i) == -1 || (i <= spec_find_from(s, pat, i) <= s.len()
            && spec_occurs_at(s, pat, spec_find_from(s, pat, i))),
    decreases s.len() + 1 - i,
{
    if i <= s.len() && !spec_occurs_at(s, pat, i) {
        lemma_find_bounds(s, pat, i + 1);
    }
}

proof fn lemma_rfind_bounds(s: Seq<char>, pat: Seq<char>, k: int)
    ensures
        spec_rfind_from(s, pat, k) == -1 || (0 <= spec_rfind_from(s, pat, k) <= k
            && spec_occurs_at(s, pat, spec_rfind_from(s, pat, k))),
    decreases k + 1,
{
    if k >= 0 && !spec_occurs_at(s, pat, k) {
        lemma_rfind_bounds(s, pat, k - 1);
    }
}

/// The first position where `pat` occurs in `s`.
pub fn find_chars(s: &Vec<char>, pat: &Vec<char>) -> (r: Option<usize>)
    ensures
        r matches Some(i) ==> i as int == spec_find_from(s@, pat@, 0) && spec_occurs_at(s@, pat@, i as int),
        r is None ==> spec_find_from(s@, pat@, 0) == -1,
{
    let n = s.len();
    let mut i: usize = 0;
    while i < n
        invariant
            n == s@.len(),
            i <= n,
            spec_find_from(s@, pat@, 0) == spec_find_from(s@, pat@, i as int),
        decreases n - i,
    {
        if occurs_in_chars(s, pat, i) {
            return Some(i);
        }
        i = i + 1;
    }
    if occurs_in_chars(s, pat, n) {
        return Some(n);
    }
    assert(spec_find_from(s@, pat@, n + 1) == -1);
    None
}

/// The last position where `pat` occurs in `s`.
pub fn rfind_chars(s: &Vec<char>, pat: &Vec<char>) -> (r: Option<usize>)
    ensures
        r matches Some(i) ==> i as int == spec_rfind(s@, pat@) && spec_occurs_at(s@, pat@, i as int),
        r is None ==> spec_rfind(s@, pat@) == -1,
{
    let n = s.len();
    let m = pat.len();
    if m > n {
        return None;
    }
    let mut k: usize = n - m;
    loop
        invariant
            k <= n - m,
            n == s@.len(),
            m == pat@.len(),
            spec_rfind(s@, pat@) == spec_rfind_from(s@, pat@, k as int),
        decreases k,
    {
        if occurs_in_chars(s, pat, k) {
            return Some(k);
        }
        if k == 0 {
            assert(spec_rfind_from(s@, pat@, -1) == -1);
            return None;
        }
        k = k - 1;
    }
}

} // verus!

verus! {

/// Relies on `String::from_iter` over characters: the string of `v`, in order.
#[verifier::external_body]
pub(crate) fn string_of_chars(v: &Vec<char>) -> (r: String)
    ensures
        r@ == v@,
{
    v.iter().collect()
}

} // verus!
