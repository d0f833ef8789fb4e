use vstd::prelude::*;
use vstd::string::StringExecFns;
use crate::config::{parse_u32_chars, spec_parse_u32};
use crate::feature::{CorporaFeatures, CorpusEntry};
use crate::text::chars_of;

verus! {

/// The first position in `lo..hi` holding `c`, or `hi`.
pub open spec fn next_sep(s: Seq<char>, c: char, lo: int, hi: int) -> int
    decreases hi - lo,
{
    if lo >= hi {
        hi
    } else if s[lo] == c {
        lo
    } else {
        next_sep(s, c, lo + 1, hi)
    }
}

pub(crate) proof fn lemma_next_sep_bounds(s: Seq<char>, c: char, lo: int, hi: int)
    requires
        lo <= hi,
    ensures
        lo <= next_sep(s, c, lo, hi) <= hi,
        next_sep(s, c, lo, hi) < hi ==> s[next_sep(s, c, lo, hi)] == c,
        forall|k: int| lo <= k < next_sep(s, c, lo, hi) ==> s[k] != c,
    decreases hi - lo,
{
    if lo < hi && s[lo] != c {
        lemma_next_sep_bounds(s, c, lo + 1, hi);
    }
}

/// The pieces of `s[p..]` between the separators `c`; a separator at the end
/// leaves an empty last piece.
pub open spec fn split_from(s: Seq<char>, c: char, p: int) -> Seq<Seq<char>>
    decreases s.len() - p,
{
    let e = next_sep(s, c, p, s.len() as int);
    if p < 0 || p > s.len() || e >= s.len() || e < p {
        seq![s.subrange(p, s.len() as int)]
    } else {
        seq![s.subrange(p, e)] + split_from(s, c, e + 1)
    }
}

/// The first position in `lo..hi` of `cs` holding `c`, or `hi`.
pub(crate) fn find_sep(cs: &Vec<char>, c: char, lo: usize, hi: usize) -> (r: usize)
    requires
        lo <= hi <= cs@.len(),
    ensures
        r == next_sep(cs@, c, lo as int, hi as int),
{
    let mut k: usize = lo;
    while k < hi && cs[k] != c
        invariant
            lo <= k <= hi <= cs@.len(),
            next_sep(cs@, c, lo as int, hi as int) == next_sep(cs@, c, k as int, hi as int),
        decreases hi - k,
    {
        k = k + 1;
    }
    k
}

/// `s[lo..hi]` as a vector.
fn copy_range(cs: &Vec<char>, lo: usize, hi: usize) -> (r: Vec<char>)
    requires
        lo <= hi <= cs@.len(),
    ensures
        r@ == cs@.subrange(lo as int, hi as int),
{
    let mut r: Vec<char> = Vec::new();
    let mut k: usize = lo;
    while k < hi
        invariant
            lo <= k <= hi <= cs@.len(),
            r@ == cs@.subrange(lo as int, k as int),
        decreases hi - k,
    {
        r.push(cs[k]);
        assert(r@ =~= cs@.subrange(lo as int, k + 1));
        k = k + 1;
    }
    r
}

/// The numbers written by the tokens `ts`, or `None` where one is not a number.
pub open spec fn parse_numbers(ts: Seq<Seq<char>>) -> Option<Seq<u32>>
    decreases ts.len(),
{
    if ts.len() == 0 {
        Some(Seq::empty())
    } else {
        match (spec_parse_u32(ts[0]), parse_numbers(ts.drop_first())) {
            (Some(v), Some(rest)) => Some(seq![v] + rest),
            _ => None,
        }
    }
}

/// One line of the block part of a control file: `Some(None)` for a line that
/// is not a feature line, `Some(Some((i, fs)))` for `FT i fs...`, and `None` for
/// a malformed feature line.
pub open spec fn spec_parse_ft(line: Seq<char>) -> Option<Option<(u32, Seq<u32>)>> {
    let t = split_from(line, ' ', 0);
    if t[0] != seq!['F', 'T'] {
        Some(None)
    } else if t.len() < 2 {
        None
    } else {
        match (spec_parse_u32(t[1]), parse_numbers(t.subrange(2, t.len() as int))) {
            (Some(i), Some(fs)) => Some(Some((i, fs))),
            _ => None,
        }
    }
}

/// The entries named by the block lines `ls`, in order, for the corpus files
/// `files`.
pub open spec fn parse_blocks(files: Seq<Seq<char>>, ls: Seq<Seq<char>>) -> Option<Seq<(Seq<char>, Seq<u32>)>>
    decreases ls.len(),
{
    if ls.len() == 0 {
        Some(Seq::empty())
    } else {
        match spec_parse_ft(ls[0]) {
            None => None,
            Some(None) => parse_blocks(files, ls.drop_first()),
            Some(Some((i, fs))) => if i < files.len() {
                match parse_blocks(files, ls.drop_first()) {
                    Some(rest) => Some(seq![(files[i as int], fs)] + rest),
                    None => None,
                }
            } else {
                None
            },
        }
    }
}

/// A merge control file: the number of files, the number of them in the first
/// corpus, the file paths one per line, then per input the fuzzer's lines, of
/// which each `FT i f...` gives the features of file `i`. Other block lines
/// are passed over.
pub open spec fn spec_parse_control(s: Seq<char>) -> Option<Seq<(Seq<char>, Seq<u32>)>> {
    let ls = split_from(s, '\n', 0);
    if ls.len() < 2 {
        None
    } else {
        match (spec_parse_u32(ls[0]), spec_parse_u32(ls[1])) {
            (Some(n), Some(m)) => if m <= n && 2 + n <= ls.len() {
                parse_blocks(ls.subrange(2, 2 + n), ls.subrange(2 + n, ls.len() as int))
            } else {
                None
            },
            _ => None,
        }
    }
}

/// A line of the block part, by `spec_parse_ft`.
fn parse_ft_line(line: &Vec<char>) -> (r: Option<Option<(u32, Vec<u32>)>>)
    ensures
        r is None <==> spec_parse_ft(line@) is None,
        r matches Some(None) <==> spec_parse_ft(line@) == Some(None::<(u32, Seq<u32>)>),
        r matches Some(Some((i, v))) ==> spec_parse_ft(line@) == Some(Some((i, v@))),
{
    let n = line.len();
    let ghost t = split_from(line@, ' ', 0);
    let e0 = find_sep(line, ' ', 0, n);
    proof {
        lemma_next_sep_bounds(line@, ' ', 0, n as int);
    }
    assert(t[0] == line@.subrange(0, e0 as int));
    if !(e0 == 2 && line[0] == 'F' && line[1] == 'T') {
        assert(t[0] != seq!['F', 'T']) by {
            if t[0] == seq!['F', 'T'] {
                assert(t[0].len() == 2);
                assert(t[0][0] == line@[0]);
                assert(t[0][1] == line@[1]);
            }
        }
        return Some(None);
    }
    assert(t[0] =~= seq!['F', 'T']);
    if e0 == n {
        return None;
    }
    let ghost rest_tokens = split_from(line@, ' ', e0 + 1);
    assert(t == seq![t[0]] + rest_tokens);
    let tok_start = e0 + 1;
    let e1 = find_sep(line, ' ', tok_start, n);
    proof {
        lemma_next_sep_bounds(line@, ' ', tok_start as int, n as int);
    }
    assert(t[1] == line@.subrange(tok_start as int, e1 as int));
    let idx = match parse_u32_chars(line, tok_start, e1) {
        Some(i) => i,
        None => {
            return None;
        },
    };
    let mut fs: Vec<u32> = Vec::new();
    if e1 == n {
        assert(t.subrange(2, t.len() as int) =~= Seq::<Seq<char>>::empty());
        return Some(Some((idx, fs)));
    }
    let mut p: usize = e1 + 1;
    assert(t.subrange(2, t.len() as int) =~= split_from(line@, ' ', p as int));
    loop
        invariant
            0 < p <= n == line@.len(),
            t == split_from(line@, ' ', 0),
            t[0] == seq!['F', 'T'],
            t.len() >= 2,
            spec_parse_u32(t[1]) == Some(idx),
            parse_numbers(t.subrange(2, t.len() as int)) matches Some(all) ==> (parse_numbers(
                split_from(line@, ' ', p as int),
            ) matches Some(tail) && all == fs@ + tail),
            parse_numbers(t.subrange(2, t.len() as int)) is None <==> parse_numbers(
                split_from(line@, ' ', p as int),
            ) is None,
        decreases n - p,
    {
        let ghost ts = split_from(line@, ' ', p as int);
        let e = find_sep(line, ' ', p, n);
        proof {
            lemma_next_sep_bounds(line@, ' ', p as int, n as int);
        }
        assert(ts[0] == line@.subrange(p as int, e as int));
        match parse_u32_chars(line, p, e) {
            None => {
                return None;
            },
            Some(v) => {
                if e == n {
                    assert(ts.drop_first() =~= Seq::<Seq<char>>::empty());
                    assert(parse_numbers(ts) == Some(seq![v]));
                    fs.push(v);
                    proof {
                        if parse_numbers(t.subrange(2, t.len() as int)) is Some {
                            assert(parse_numbers(t.subrange(2, t.len() as int))->0 =~= fs@);
                        }
                    }
                    return Some(Some((idx, fs)));
                }
                assert(ts.drop_first() == split_from(line@, ' ', e + 1));
                fs.push(v);
                proof {
                    if parse_numbers(t.subrange(2, t.len() as int)) is Some {
                        let tail = parse_numbers(ts.drop_first())->0;
                        assert(parse_numbers(t.subrange(2, t.len() as int))->0 =~= fs@ + tail);
                    }
                }
                p = e + 1;
            },
        }
    }
}

pub(crate) proof fn lemma_split_step(s: Seq<char>, c: char, p: int)
    requires
        0 <= p <= s.len(),
    ensures
        next_sep(s, c, p, s.len() as int) < s.len() ==> split_from(s, c, p) == seq![
            s.subrange(p, next_sep(s, c, p, s.len() as int)),
        ] + split_from(s, c, next_sep(s, c, p, s.len() as int) + 1),
        next_sep(s, c, p, s.len() as int) >= s.len() ==> split_from(s, c, p) == seq![
            s.subrange(p, s.len() as int),
        ],
{
    lemma_next_sep_bounds(s, c, p, s.len() as int);
}

/// The parsed merge control file `text`, by `spec_parse_control`.
pub fn parse_control_file(text: &str) -> (r: Option<CorporaFeatures>)
    ensures
        r is None <==> spec_parse_control(text@) is None,
        r matches Some(c) ==> spec_parse_control(text@) == Some(c.spec_entries()),
{
    let cs = chars_of(text);
    let n = cs.len();
    let ghost s = text@;
    let ghost ls = split_from(s, '\n', 0);
    proof {
        lemma_split_step(s, '\n', 0);
        lemma_next_sep_bounds(s, '\n', 0, n as int);
    }
    let e0 = find_sep(&cs, '\n', 0, n);
    if e0 == n {
        return None;
    }
    proof {
        lemma_split_step(s, '\n', e0 + 1);
        lemma_next_sep_bounds(s, '\n', e0 + 1, n as int);
    }
    let e1 = find_sep(&cs, '\n', e0 + 1, n);
    assert(ls[0] == s.subrange(0, e0 as int));
    assert(ls[1] == s.subrange(e0 + 1, e1 as int));
    let nf = match parse_u32_chars(&cs, 0, e0) {
        Some(v) => v,
        None => {
            return None;
        },
    };
    let m = match parse_u32_chars(&cs, e0 + 1, e1) {
        Some(v) => v,
        None => {
            return None;
        },
    };
    if m > nf {
        return None;
    }
    // the lines from line `k` on are those of `s[p..]` where `more` holds, else none
    let mut more: bool = e1 < n;
    let mut p: usize = if e1 < n { e1 + 1 } else { n };
    let ghost mut k: int = 2;
    assert(ls.len() >= 2);
    if more {
        assert(ls.subrange(2, ls.len() as int) =~= split_from(s, '\n', p as int));
    } else {
        assert(ls.len() == 2);
    }
    let mut files: Vec<String> = Vec::new();
    while (files.len() as u64) < nf as u64
        invariant
            n == s.len() == cs@.len(),
            s == text@,
            cs@ == s,
            ls == split_from(s, '\n', 0),
            ls.len() >= 2,
            spec_parse_u32(ls[0]) == Some(nf),
            spec_parse_u32(ls[1]) == Some(m),
            m <= nf,
            2 <= k <= ls.len(),
            k == 2 + files@.len(),
            files@.len() <= nf,
            p <= n,
            more ==> split_from(s, '\n', p as int) == ls.subrange(k, ls.len() as int),
            !more ==> k == ls.len(),
            files@.map_values(|f: String| f@) == ls.subrange(2, k),
        decreases nf - files@.len(),
    {
        if !more {
            return None;
        }
        proof {
            lemma_split_step(s, '\n', p as int);
            lemma_next_sep_bounds(s, '\n', p as int, n as int);
        }
        let e = find_sep(&cs, '\n', p, n);
        assert(split_from(s, '\n', p as int)[0] == s.subrange(p as int, e as int));
        assert(ls.subrange(k, ls.len() as int)[0] == ls[k]);
        assert(ls[k] == s.subrange(p as int, e as int));
        files.push(text.substring_char(p, e).to_owned());
        assert(files@.map_values(|f: String| f@) =~= ls.subrange(2, k + 1));
        proof {
            k = k + 1;
        }
        if e == n {
            more = false;
        } else {
            assert(split_from(s, '\n', p as int).drop_first() =~= split_from(s, '\n', e + 1));
            assert(ls.subrange(k - 1, ls.len() as int).drop_first() =~= ls.subrange(k, ls.len() as int));
            p = e + 1;
        }
    }
    let ghost fl = ls.subrange(2, 2 + nf);
    assert(files@.map_values(|f: String| f@) == fl);
    let mut entries: Vec<CorpusEntry> = Vec::new();
    assert(ls.subrange(k, ls.len() as int) == ls.subrange(2 + nf, ls.len() as int));
    while more
        invariant
            n == s.len() == cs@.len(),
            s == text@,
            cs@ == s,
            ls == split_from(s, '\n', 0),
            ls.len() >= 2,
            spec_parse_u32(ls[0]) == Some(nf),
            spec_parse_u32(ls[1]) == Some(m),
            m <= nf,
            2 + nf <= k <= ls.len(),
            p <= n,
            files@.len() == nf,
            files@.map_values(|f: String| f@) == fl,
            fl == ls.subrange(2, 2 + nf),
            more ==> split_from(s, '\n', p as int) == ls.subrange(k, ls.len() as int),
            !more ==> k == ls.len(),
            parse_blocks(fl, ls.subrange(2 + nf, ls.len() as int)) is None <==> parse_blocks(
                fl,
                ls.subrange(k, ls.len() as int),
            ) is None,
            parse_blocks(fl, ls.subrange(2 + nf, ls.len() as int)) matches Some(all) ==> (parse_blocks(
                fl,
                ls.subrange(k, ls.len() as int),
            ) matches Some(tail) && all == entries@.map_values(
                |e: CorpusEntry| (e.file@, e.features@),
            ) + tail),
        decreases n - p + (if more { 1int } else { 0int }),
    {
        proof {
            lemma_split_step(s, '\n', p as int);
            lemma_next_sep_bounds(s, '\n', p as int, n as int);
        }
        let ghost rest = ls.subrange(k, ls.len() as int);
        let e = find_sep(&cs, '\n', p, n);
        assert(rest[0] == s.subrange(p as int, e as int));
        let line = copy_range(&cs, p, e);
        let parsed = parse_ft_line(&line);
        assert(rest.drop_first() =~= ls.subrange(k + 1, ls.len() as int));
        match parsed {
            None => {
                return None;
            },
            Some(None) => {},
            Some(Some((i, fs))) => {
                if i >= nf {
                    return None;
                }
                let ghost before = entries@.map_values(|e: CorpusEntry| (e.file@, e.features@));
                assert(files@.map_values(|f: String| f@)[i as int] == files@[i as int]@);
                entries.push(CorpusEntry { file: files[i as usize].clone(), features: fs });
                proof {
                    let now = entries@.map_values(|e: CorpusEntry| (e.file@, e.features@));
                    assert(now =~= before.push((fl[i as int], fs@)));
                    if parse_blocks(fl, ls.subrange(2 + nf, ls.len() as int)) is Some {
                        let tail = parse_blocks(fl, rest.drop_first())->0;
                        assert(parse_blocks(fl, ls.subrange(2 + nf, ls.len() as int))->0 =~= now + tail);
                    }
                }
            },
        }
        proof {
            k = k + 1;
        }
        if e == n {
            more = false;
        } else {
            p = e + 1;
        }
    }
    assert(ls.subrange(k, ls.len() as int) =~= Seq::<Seq<char>>::empty());
    proof {
        if parse_blocks(fl, ls.subrange(2 + nf, ls.len() as int)) is Some {
            assert(parse_blocks(fl, ls.subrange(2 + nf, ls.len() as int))->0 =~= entries@.map_values(
                |e: CorpusEntry| (e.file@, e.features@),
            ));
        }
    }
    Some(CorporaFeatures { entries })
}

/// The decimal digit of `d`, for `d < 10`.
pub open spec fn digit_char(d: nat) -> char {
    if d == 0 { '0' } else if d == 1 { '1' } else if d == 2 { '2' } else if d == 3 { '3' }
    else if d == 4 { '4' } else if d == 5 { '5' } else if d == 6 { '6' } else if d == 7 { '7' }
    else if d == 8 { '8' } else { '9' }
}

/// `n` in decimal, without leading zeros.
pub open spec fn dec(n: nat) -> Seq<char>
    decreases n,
{
    if n < 10 {
        seq![digit_char(n)]
    } else {
        dec(n / 10).push(digit_char(n % 10))
    }
}

/// The features of one input as the fuzzer writes them after the index.
pub open spec fn features_text(fs: Seq<u32>) -> Seq<char>
    decreases fs.len(),
{
    if fs.len() == 0 {
        Seq::empty()
    } else {
        seq![' '] + dec(fs[0] as nat) + features_text(fs.drop_first())
    }
}

/// The line that starts input `i` of size `size`.
pub open spec fn started_line(i: nat, size: nat) -> Seq<char> {
    seq!['S', 'T', 'A', 'R', 'T', 'E', 'D', ' '] + dec(i) + seq![' '] + dec(size)
}

/// The line with the features of input `i`.
pub open spec fn ft_line(i: nat, fs: Seq<u32>) -> Seq<char> {
    seq!['F', 'T', ' '] + dec(i) + features_text(fs)
}

/// The fuzzer's block lines from input `i` on.
pub open spec fn block_lines(fts: Seq<Seq<u32>>, sizes: Seq<nat>, i: int) -> Seq<Seq<char>>
    decreases fts.len() - i,
{
    if i < 0 || i >= fts.len() {
        Seq::empty()
    } else {
        seq![started_line(i as nat, sizes[i]), ft_line(i as nat, fts[i])] + block_lines(fts, sizes, i + 1)
    }
}

/// Lines, each ended by a newline.
pub open spec fn emit_lines(ls: Seq<Seq<char>>) -> Seq<char>
    decreases ls.len(),
{
    if ls.len() == 0 {
        Seq::empty()
    } else {
        ls[0] + seq!['\n'] + emit_lines(ls.drop_first())
    }
}

/// The control file that the fuzzer's merge writes for the corpus files
/// `files`, all in the first corpus, where input `i` has size `sizes[i]` and
/// features `fts[i]`.
pub open spec fn merge_emission(files: Seq<Seq<char>>, fts: Seq<Seq<u32>>, sizes: Seq<nat>) -> Seq<char> {
    emit_lines(seq![dec(files.len()), dec(files.len())] + files + block_lines(fts, sizes, 0))
}

/// Each file paired with its features.
pub open spec fn zip_entries(files: Seq<Seq<char>>, fts: Seq<Seq<u32>>) -> Seq<(Seq<char>, Seq<u32>)> {
    Seq::new(files.len(), |i: int| (files[i], fts[i]))
}

pub(crate) proof fn lemma_digit_char(d: nat)
    requires
        d < 10,
    ensures
        crate::config::is_digit(digit_char(d)),
        digit_char(d) as nat - '0' as nat == d,
{
}

proof fn lemma_dec(n: nat)
    ensures
        dec(n).len() >= 1,
        forall|k: int| 0 <= k < dec(n).len() ==> crate::config::is_digit(#[trigger] dec(n)[k]),
        crate::config::digits_value(dec(n)) == n,
    decreases n,
{
    lemma_digit_char(n % 10);
    if n < 10 {
        lemma_digit_char(n);
        assert(dec(n).drop_last() =~= Seq::<char>::empty());
        assert(dec(n).last() == digit_char(n));
        assert(crate::config::digits_value(Seq::<char>::empty()) == 0);
        assert(crate::config::digits_value(dec(n)) == crate::config::digits_value(dec(n).drop_last()) * 10
            + n);
    } else {
        lemma_dec(n / 10);
        let d = dec(n);
        assert(d.drop_last() =~= dec(n / 10));
        assert(n == (n / 10) * 10 + n % 10) by (nonlinear_arith);
        assert(d.last() == digit_char(n % 10));
        assert(crate::config::digits_value(d) == crate::config::digits_value(dec(n / 10)) * 10 + n % 10);
        assert forall|k: int| 0 <= k < d.len() implies crate::config::is_digit(#[trigger] d[k]) by {
            if k < d.len() - 1 {
                assert(d[k] == dec(n / 10)[k]);
            }
        }
    }
}

pub(crate) proof fn lemma_parse_dec(n: nat)
    requires
        n <= u32::MAX,
    ensures
        spec_parse_u32(dec(n)) == Some(n as u32),
        !dec(n).contains(' '),
        !dec(n).contains('\n'),
{
    lemma_dec(n);
    assert(crate::config::unsigned_digits(dec(n)) == dec(n)) by {
        assert(crate::config::is_digit(dec(n)[0]));
    }
    if dec(n).contains(' ') {
        let k = choose|k: int| 0 <= k < dec(n).len() && dec(n)[k] == ' ';
        assert(crate::config::is_digit(dec(n)[k]));
    }
    if dec(n).contains('\n') {
        let k = choose|k: int| 0 <= k < dec(n).len() && dec(n)[k] == '\n';
        assert(crate::config::is_digit(dec(n)[k]));
    }
}

proof fn lemma_next_sep_shift(pre: Seq<char>, y: Seq<char>, c: char, q: int)
    requires
        0 <= q <= y.len(),
    ensures
        next_sep(pre + y, c, pre.len() + q, (pre + y).len() as int) == pre.len() + next_sep(y, c, q, y.len() as int),
    decreases y.len() - q,
{
    if q < y.len() {
        assert((pre + y)[pre.len() + q] == y[q]);
        lemma_next_sep_shift(pre, y, c, q + 1);
    }
}

proof fn lemma_split_shift(pre: Seq<char>, y: Seq<char>, c: char, q: int)
    requires
        0 <= q <= y.len(),
    ensures
        split_from(pre + y, c, pre.len() + q) == split_from(y, c, q),
    decreases y.len() - q,
{
    let x = pre + y;
    lemma_next_sep_shift(pre, y, c, q);
    lemma_next_sep_bounds(y, c, q, y.len() as int);
    let e = next_sep(y, c, q, y.len() as int);
    if e >= y.len() {
        assert(x.subrange(pre.len() + q, x.len() as int) =~= y.subrange(q, y.len() as int));
    } else {
        lemma_split_shift(pre, y, c, e + 1);
        assert(x.subrange(pre.len() + q, pre.len() + e) =~= y.subrange(q, e));
    }
}

pub(crate) proof fn lemma_split_none(a: Seq<char>, c: char)
    requires
        !a.contains(c),
    ensures
        split_from(a, c, 0) == seq![a],
{
    lemma_no_sep(a, c, 0);
    assert(a.subrange(0, a.len() as int) =~= a);
}

proof fn lemma_no_sep(a: Seq<char>, c: char, q: int)
    requires
        !a.contains(c),
        0 <= q <= a.len(),
    ensures
        next_sep(a, c, q, a.len() as int) == a.len(),
    decreases a.len() - q,
{
    if q < a.len() {
        assert(a[q] != c) by {
            if a[q] == c {
                assert(a.contains(c));
            }
        }
        lemma_no_sep(a, c, q + 1);
    }
}

pub(crate) proof fn lemma_split_cons(a: Seq<char>, y: Seq<char>, c: char)
    requires
        !a.contains(c),
    ensures
        split_from(a + seq![c] + y, c, 0) == seq![a] + split_from(y, c, 0),
{
    let pre = a + seq![c];
    let x = pre + y;
    assert(x == a + seq![c] + y);
    lemma_no_sep(a, c, 0);
    lemma_next_sep_shift(a, seq![c] + y, c, 0);
    assert(a + (seq![c] + y) =~= x);
    assert(next_sep(seq![c] + y, c, 0, 1 + y.len() as int) == 0);
    assert(next_sep(x, c, 0, x.len() as int) == a.len()) by {
        lemma_first_sep(a, seq![c] + y, c);
    }
    lemma_split_shift(pre, y, c, 0);
    assert(x.subrange(0, a.len() as int) =~= a);
}

proof fn lemma_first_sep(a: Seq<char>, y: Seq<char>, c: char)
    requires
        !a.contains(c),
        y.len() > 0,
        y[0] == c,
    ensures
        next_sep(a + y, c, 0, (a + y).len() as int) == a.len(),
{
    lemma_first_sep_from(a, y, c, 0);
}

proof fn lemma_first_sep_from(a: Seq<char>, y: Seq<char>, c: char, q: int)
    requires
        !a.contains(c),
        y.len() > 0,
        y[0] == c,
        0 <= q <= a.len(),
    ensures
        next_sep(a + y, c, q, (a + y).len() as int) == a.len(),
    decreases a.len() - q,
{
    if q < a.len() {
        assert((a + y)[q] == a[q]);
        assert(a[q] != c) by {
            if a[q] == c {
                assert(a.contains(c));
            }
        }
        lemma_first_sep_from(a, y, c, q + 1);
    } else {
        assert((a + y)[q] == y[0]);
    }
}

proof fn lemma_emit_split(ls: Seq<Seq<char>>)
    requires
        forall|k: int| 0 <= k < ls.len() ==> !(#[trigger] ls[k]).contains('\n'),
    ensures
        split_from(emit_lines(ls), '\n', 0) == ls + seq![Seq::<char>::empty()],
    decreases ls.len(),
{
    if ls.len() == 0 {
        assert(split_from(Seq::<char>::empty(), '\n', 0) == seq![Seq::<char>::empty().subrange(0, 0)]);
        assert(Seq::<char>::empty().subrange(0, 0) =~= Seq::<char>::empty());
        assert(ls + seq![Seq::<char>::empty()] =~= seq![Seq::<char>::empty()]);
    } else {
        let rest = ls.drop_first();
        assert forall|k: int| 0 <= k < rest.len() implies !(#[trigger] rest[k]).contains('\n') by {
            assert(rest[k] == ls[k + 1]);
        }
        lemma_emit_split(rest);
        lemma_split_cons(ls[0], emit_lines(rest), '\n');
        assert(ls + seq![Seq::<char>::empty()] =~= seq![ls[0]] + (rest + seq![Seq::<char>::empty()]));
    }
}

proof fn lemma_features_tokens(x: nat, fs: Seq<u32>)
    requires
        x <= u32::MAX,
    ensures
        split_from(dec(x) + features_text(fs), ' ', 0) == seq![dec(x)] + fs.map_values(|f: u32| dec(f as nat)),
    decreases fs.len(),
{
    lemma_parse_dec(x);
    if fs.len() == 0 {
        assert(dec(x) + features_text(fs) =~= dec(x));
        lemma_split_none(dec(x), ' ');
        assert(seq![dec(x)] + fs.map_values(|f: u32| dec(f as nat)) =~= seq![dec(x)]);
    } else {
        let rest = fs.drop_first();
        lemma_features_tokens(fs[0] as nat, rest);
        assert(dec(x) + features_text(fs) =~= dec(x) + seq![' '] + (dec(fs[0] as nat) + features_text(rest)));
        lemma_split_cons(dec(x), dec(fs[0] as nat) + features_text(rest), ' ');
        assert(fs.map_values(|f: u32| dec(f as nat)) =~= seq![dec(fs[0] as nat)] + rest.map_values(
            |f: u32| dec(f as nat),
        ));
    }
}

proof fn lemma_parse_numbers_dec(fs: Seq<u32>)
    ensures
        parse_numbers(fs.map_values(|f: u32| dec(f as nat))) == Some(fs),
    decreases fs.len(),
{
    let ts = fs.map_values(|f: u32| dec(f as nat));
    if fs.len() > 0 {
        lemma_parse_numbers_dec(fs.drop_first());
        assert(ts.drop_first() =~= fs.drop_first().map_values(|f: u32| dec(f as nat)));
        lemma_parse_dec(fs[0] as nat);
        assert(seq![fs[0]] + fs.drop_first() =~= fs);
    } else {
        assert(fs =~= Seq::<u32>::empty());
    }
}

proof fn lemma_parse_ft_line(i: nat, fs: Seq<u32>)
    requires
        i <= u32::MAX,
    ensures
        spec_parse_ft(ft_line(i, fs)) == Some(Some((i as u32, fs))),
{
    let rest = dec(i) + features_text(fs);
    assert(ft_line(i, fs) =~= seq!['F', 'T'] + seq![' '] + rest);
    assert(!seq!['F', 'T'].contains(' ')) by {
        if seq!['F', 'T'].contains(' ') {
            let k = choose|k: int| 0 <= k < 2 && seq!['F', 'T'][k] == ' ';
        }
    }
    lemma_split_cons(seq!['F', 'T'], rest, ' ');
    lemma_features_tokens(i, fs);
    lemma_parse_dec(i);
    let t = split_from(ft_line(i, fs), ' ', 0);
    let ms = fs.map_values(|f: u32| dec(f as nat));
    assert(t == seq![seq!['F', 'T']] + (seq![dec(i)] + ms));
    assert(t.subrange(2, t.len() as int) =~= ms);
    lemma_parse_numbers_dec(fs);
}

proof fn lemma_parse_started_line(i: nat, size: nat)
    ensures
        spec_parse_ft(started_line(i, size)) == Some(None::<(u32, Seq<u32>)>),
{
    let word = seq!['S', 'T', 'A', 'R', 'T', 'E', 'D'];
    let rest = dec(i) + seq![' '] + dec(size);
    assert(started_line(i, size) =~= word + seq![' '] + rest);
    assert(!word.contains(' ')) by {
        if word.contains(' ') {
            let k = choose|k: int| 0 <= k < word.len() && word[k] == ' ';
        }
    }
    lemma_split_cons(word, rest, ' ');
    assert(split_from(started_line(i, size), ' ', 0)[0] == word);
    assert(word.len() != 2);
}

proof fn lemma_parse_empty_line()
    ensures
        spec_parse_ft(Seq::<char>::empty()) == Some(None::<(u32, Seq<u32>)>),
{
    lemma_split_none(Seq::<char>::empty(), ' ');
}

proof fn lemma_blocks_round_trip(files: Seq<Seq<char>>, fts: Seq<Seq<u32>>, sizes: Seq<nat>, i: int)
    requires
        files.len() == fts.len() == sizes.len(),
        files.len() <= u32::MAX + 1,
        0 <= i <= files.len(),
    ensures
        parse_blocks(files, block_lines(fts, sizes, i) + seq![Seq::<char>::empty()]) == Some(
            zip_entries(files, fts).subrange(i, files.len() as int),
        ),
    decreases files.len() - i,
{
    let ls = block_lines(fts, sizes, i) + seq![Seq::<char>::empty()];
    if i == files.len() {
        assert(ls =~= seq![Seq::<char>::empty()]);
        lemma_parse_empty_line();
        assert(ls.drop_first() =~= Seq::<Seq<char>>::empty());
        assert(zip_entries(files, fts).subrange(i, files.len() as int) =~= Seq::<(Seq<char>, Seq<u32>)>::empty());
    } else {
        lemma_blocks_round_trip(files, fts, sizes, i + 1);
        let tail = block_lines(fts, sizes, i + 1) + seq![Seq::<char>::empty()];
        assert(ls =~= seq![started_line(i as nat, sizes[i]), ft_line(i as nat, fts[i])] + tail);
        lemma_parse_started_line(i as nat, sizes[i]);
        lemma_parse_ft_line(i as nat, fts[i]);
        assert(ls.drop_first() =~= seq![ft_line(i as nat, fts[i])] + tail);
        assert(ls.drop_first().drop_first() =~= tail);
        let z = zip_entries(files, fts);
        assert(parse_blocks(files, ls.drop_first().drop_first()) == Some(z.subrange(i + 1, files.len() as int)));
        assert((i as nat) as u32 as int == i);
        assert(parse_blocks(files, ls.drop_first()) == Some(seq![(files[i], fts[i])] + z.subrange(i + 1, files.len() as int)));
        assert(parse_blocks(files, ls) == parse_blocks(files, ls.drop_first()));
        assert(zip_entries(files, fts).subrange(i, files.len() as int) =~= seq![(files[i], fts[i])]
            + zip_entries(files, fts).subrange(i + 1, files.len() as int));
    }
}

/// Reading a merge control file gives back what the fuzzer wrote: for corpus
/// files without line breaks, every file paired with its features, in order.
pub proof fn lemma_control_round_trip(files: Seq<Seq<char>>, fts: Seq<Seq<u32>>, sizes: Seq<nat>)
    requires
        files.len() == fts.len() == sizes.len(),
        files.len() <= u32::MAX,
        forall|k: int| 0 <= k < files.len() ==> !(#[trigger] files[k]).contains('\n'),
    ensures
        spec_parse_control(merge_emission(files, fts, sizes)) == Some(zip_entries(files, fts)),
{
    let n = files.len() as int;
    let blocks = block_lines(fts, sizes, 0);
    let ls = seq![dec(n as nat), dec(n as nat)] + files + blocks;
    lemma_parse_dec(n as nat);
    assert forall|k: int| 0 <= k < ls.len() implies !(#[trigger] ls[k]).contains('\n') by {
        if k >= 2 + n {
            lemma_block_lines_no_newline(fts, sizes, 0, k - 2 - n);
        } else if k >= 2 {
            assert(ls[k] == files[k - 2]);
        }
    }
    lemma_emit_split(ls);
    let all = ls + seq![Seq::<char>::empty()];
    assert(all.subrange(2, 2 + n) =~= files);
    assert(all.subrange(2 + n, all.len() as int) =~= blocks + seq![Seq::<char>::empty()]);
    lemma_blocks_round_trip(files, fts, sizes, 0);
    assert(zip_entries(files, fts).subrange(0, n) =~= zip_entries(files, fts));
}

proof fn lemma_block_lines_no_newline(fts: Seq<Seq<u32>>, sizes: Seq<nat>, i: int, k: int)
    requires
        0 <= i,
        fts.len() <= u32::MAX,
        0 <= k < block_lines(fts, sizes, i).len(),
    ensures
        !block_lines(fts, sizes, i)[k].contains('\n'),
    decreases fts.len() - i,
{
    if i < fts.len() {
        let head = seq![started_line(i as nat, sizes[i]), ft_line(i as nat, fts[i])];
        if k >= 2 {
            lemma_block_lines_no_newline(fts, sizes, i + 1, k - 2);
            assert(block_lines(fts, sizes, i)[k] == block_lines(fts, sizes, i + 1)[k - 2]);
        } else {
            assert(block_lines(fts, sizes, i)[k] == head[k]);
            lemma_line_no_newline(i as nat, sizes[i], fts[i], k);
        }
    }
}

proof fn lemma_line_no_newline(i: nat, size: nat, fs: Seq<u32>, k: int)
    requires
        k == 0 || k == 1,
    ensures
        k == 0 ==> !started_line(i, size).contains('\n'),
        k == 1 ==> !ft_line(i, fs).contains('\n'),
{
    lemma_dec(i);
    lemma_dec(size);
    lemma_features_text_digits(fs);
    if k == 0 && started_line(i, size).contains('\n') {
        let l = started_line(i, size);
        let w = choose|w: int| 0 <= w < l.len() && l[w] == '\n';
        if w >= 8 && w < 8 + dec(i).len() {
            assert(l[w] == dec(i)[w - 8]);
            assert(crate::config::is_digit(dec(i)[w - 8]));
        } else if w >= 9 + dec(i).len() {
            assert(l[w] == dec(size)[w - 9 - dec(i).len()]);
            assert(crate::config::is_digit(dec(size)[w - 9 - dec(i).len()]));
        }
    }
    if k == 1 && ft_line(i, fs).contains('\n') {
        let l = ft_line(i, fs);
        let w = choose|w: int| 0 <= w < l.len() && l[w] == '\n';
        if w >= 3 && w < 3 + dec(i).len() {
            assert(l[w] == dec(i)[w - 3]);
            assert(crate::config::is_digit(dec(i)[w - 3]));
        } else if w >= 3 + dec(i).len() {
            assert(l[w] == features_text(fs)[w - 3 - dec(i).len()]);
        }
    }
}

proof fn lemma_features_text_digits(fs: Seq<u32>)
    ensures
        forall|k: int| 0 <= k < features_text(fs).len() ==> #[trigger] features_text(fs)[k] != '\n',
    decreases fs.len(),
{
    if fs.len() > 0 {
        lemma_features_text_digits(fs.drop_first());
        lemma_dec(fs[0] as nat);
        let d = dec(fs[0] as nat);
        let t = features_text(fs);
        assert forall|k: int| 0 <= k < t.len() implies #[trigger] t[k] != '\n' by {
            if k >= 1 && k < 1 + d.len() {
                assert(t[k] == d[k - 1]);
                assert(crate::config::is_digit(d[k - 1]));
            } else if k >= 1 + d.len() {
                assert(t[k] == features_text(fs.drop_first())[k - 1 - d.len()]);
            }
        }
    }
}

} // verus!
