use vstd::prelude::*;
use std::collections::HashSet;

verus! {

broadcast use vstd::std_specs::hash::group_hash_axioms;

/// `g` with every feature of `fs` added.
pub open spec fn add_all(g: Set<u32>, fs: Seq<u32>) -> Set<u32>
    decreases fs.len(),
{
    if fs.len() == 0 {
        g
    } else {
        add_all(g, fs.drop_last()).insert(fs.last())
    }
}

/// Whether `fs` holds a feature that `g` lacks.
pub open spec fn has_new(g: Set<u32>, fs: Seq<u32>) -> bool {
    exists|k: int| 0 <= k < fs.len() && !g.contains(#[trigger] fs[k])
}

/// The global feature set after the entries of a merge, in order, were added to `g`.
pub open spec fn evolve_global(g: Set<u32>, entries: Seq<(Seq<char>, Seq<u32>)>) -> Set<u32>
    decreases entries.len(),
{
    if entries.len() == 0 {
        g
    } else {
        add_all(evolve_global(g, entries.drop_last()), entries.last().1)
    }
}

/// The files of a merge admitted to the shared corpus: in order, those whose
/// features include one that the global set lacked when their turn came.
pub open spec fn interesting(g: Set<u32>, entries: Seq<(Seq<char>, Seq<u32>)>) -> Seq<Seq<char>>
    decreases entries.len(),
{
    if entries.len() == 0 {
        Seq::empty()
    } else {
        let before = interesting(g, entries.drop_last());
        if has_new(evolve_global(g, entries.drop_last()), entries.last().1) {
            before.push(entries.last().0)
        } else {
            before
        }
    }
}

pub proof fn lemma_add_all_contains(g: Set<u32>, fs: Seq<u32>, x: u32)
    ensures
        add_all(g, fs).contains(x) <==> (g.contains(x) || fs.contains(x)),
    decreases fs.len(),
{
    if fs.len() > 0 {
        lemma_add_all_contains(g, fs.drop_last(), x);
        if fs.drop_last().contains(x) {
            let k = choose|k: int| 0 <= k < fs.drop_last().len() && fs.drop_last()[k] == x;
            assert(fs[k] == x);
        }
        if fs.contains(x) && x != fs.last() {
            let k = choose|k: int| 0 <= k < fs.len() && fs[k] == x;
            assert(fs.drop_last()[k] == x);
        }
        assert(fs[fs.len() - 1] == fs.last());
    }
}

/// The global feature set only grows: a merge keeps every feature that was
/// there before, and adds those of every merged file.
pub proof fn lemma_global_monotonic(g: Set<u32>, entries: Seq<(Seq<char>, Seq<u32>)>)
    ensures
        g.subset_of(evolve_global(g, entries)),
        forall|i: int, k: int|
            0 <= i < entries.len() && 0 <= k < entries[i].1.len()
                ==> evolve_global(g, entries).contains(#[trigger] entries[i].1[k]),
    decreases entries.len(),
{
    if entries.len() > 0 {
        let p = entries.drop_last();
        lemma_global_monotonic(g, p);
        let gp = evolve_global(g, p);
        let last = entries.last().1;
        assert forall|x: u32| gp.contains(x) implies add_all(gp, last).contains(x) by {
            lemma_add_all_contains(gp, last, x);
        }
        assert forall|i: int, k: int|
            0 <= i < entries.len() && 0 <= k < entries[i].1.len()
                implies evolve_global(g, entries).contains(#[trigger] entries[i].1[k]) by {
            let x = entries[i].1[k];
            lemma_add_all_contains(gp, last, x);
            if i < entries.len() - 1 {
                assert(p[i] == entries[i]);
            } else {
                assert(last[k] == x);
            }
        }
    }
}

/// The global feature set after the first `k` rounds, round `i` merging the
/// entries `rounds[i]`.
pub open spec fn global_after(g: Set<u32>, rounds: Seq<Seq<(Seq<char>, Seq<u32>)>>, k: int) -> Set<u32>
    decreases k,
{
    if k <= 0 || k > rounds.len() {
        g
    } else {
        evolve_global(global_after(g, rounds, k - 1), rounds[k - 1])
    }
}

/// The global feature set is monotonic across rounds: whatever it holds after
/// round `r1` it still holds after any later round `r2`.
pub proof fn lemma_rounds_monotonic(
    g: Set<u32>,
    rounds: Seq<Seq<(Seq<char>, Seq<u32>)>>,
    r1: int,
    r2: int,
)
    requires
        0 <= r1 <= r2 <= rounds.len(),
    ensures
        global_after(g, rounds, r1).subset_of(global_after(g, rounds, r2)),
    decreases r2 - r1,
{
    if r1 < r2 {
        lemma_rounds_monotonic(g, rounds, r1, r2 - 1);
        lemma_global_monotonic(global_after(g, rounds, r2 - 1), rounds[r2 - 1]);
    }
}

/// Evolving twice with the same merge result admits nothing the second time.
pub proof fn lemma_evolve_idempotent(g: Set<u32>, entries: Seq<(Seq<char>, Seq<u32>)>)
    ensures
        interesting(evolve_global(g, entries), entries).len() == 0,
{
    lemma_global_monotonic(g, entries);
    lemma_no_new_admits_nothing(evolve_global(g, entries), entries);
}

proof fn lemma_no_new_admits_nothing(big: Set<u32>, entries: Seq<(Seq<char>, Seq<u32>)>)
    requires
        forall|i: int, k: int|
            0 <= i < entries.len() && 0 <= k < entries[i].1.len()
                ==> big.contains(#[trigger] entries[i].1[k]),
    ensures
        interesting(big, entries).len() == 0,
        evolve_global(big, entries) == big,
    decreases entries.len(),
{
    if entries.len() > 0 {
        let p = entries.drop_last();
        assert forall|i: int, k: int|
            0 <= i < p.len() && 0 <= k < p[i].1.len() implies big.contains(#[trigger] p[i].1[k]) by {
            assert(p[i] == entries[i]);
        }
        lemma_no_new_admits_nothing(big, p);
        let last = entries.last().1;
        assert(!has_new(big, last)) by {
            assert forall|k: int| 0 <= k < last.len() implies big.contains(#[trigger] last[k]) by {
                assert(entries[entries.len() - 1].1[k] == last[k]);
            }
        }
        assert forall|x: u32| add_all(big, last).contains(x) == big.contains(x) by {
            lemma_add_all_contains(big, last, x);
            if last.contains(x) {
                let k = choose|k: int| 0 <= k < last.len() && last[k] == x;
                assert(entries[entries.len() - 1].1[k] == x);
            }
        }
        assert(add_all(big, last) =~= big);
    }
}

/// Every file admitted by a merge carried a feature that the global set lacked
/// at the moment it was admitted.
pub proof fn lemma_admitted_are_novel(g: Set<u32>, entries: Seq<(Seq<char>, Seq<u32>)>)
    ensures
        forall|a: int|
            0 <= a < interesting(g, entries).len() ==> exists|i: int|
                0 <= i < entries.len() && entries[i].0 == #[trigger] interesting(g, entries)[a]
                    && has_new(evolve_global(g, entries.subrange(0, i)), entries[i].1),
    decreases entries.len(),
{
    if entries.len() > 0 {
        let p = entries.drop_last();
        lemma_admitted_are_novel(g, p);
        let n = entries.len() - 1;
        assert(entries.subrange(0, n) =~= p);
        assert forall|a: int| 0 <= a < interesting(g, entries).len() implies exists|i: int|
            0 <= i < entries.len() && entries[i].0 == #[trigger] interesting(g, entries)[a]
                && has_new(evolve_global(g, entries.subrange(0, i)), entries[i].1) by {
            if a < interesting(g, p).len() {
                let i = choose|i: int|
                    0 <= i < p.len() && p[i].0 == #[trigger] interesting(g, p)[a]
                        && has_new(evolve_global(g, p.subrange(0, i)), p[i].1);
                assert(p.subrange(0, i) =~= entries.subrange(0, i));
                assert(p[i] == entries[i]);
            } else {
                assert(interesting(g, entries)[a] == entries[n].0);
            }
        }
    }
}

/// One input of a merge: the file and the features the fuzzer reported for it.
#[derive(Clone, Debug, PartialEq, Eq)]
pub struct CorpusEntry {
    pub file: String,
    pub features: Vec<u32>,
}

/// The parsed result of one merge control file, one entry per corpus input.
#[derive(Clone, Debug, PartialEq, Eq)]
pub struct CorporaFeatures {
    pub entries: Vec<CorpusEntry>,
}

impl CorporaFeatures {
    pub open spec fn spec_entries(&self) -> Seq<(Seq<char>, Seq<u32>)> {
        self.entries@.map_values(|e: CorpusEntry| (e.file@, e.features@))
    }
}

/// The set of coverage features seen across all rounds, kept in order of
/// first insertion so that its stored form is fixed by its history.
pub struct GlobalFeature {
    set: HashSet<u32>,
    order: Vec<u32>,
}

impl View for GlobalFeature {
    type V = Set<u32>;

    closed spec fn view(&self) -> Set<u32> {
        self.set@
    }
}

/// The ASCII decimal digits of `n`, without leading zeros.
pub open spec fn decimal_bytes(n: nat) -> Seq<u8>
    decreases n,
{
    if n < 10 {
        seq![(48 + n) as u8]
    } else {
        decimal_bytes(n / 10).push((48 + n % 10) as u8)
    }
}

/// The integers of `v` in decimal, separated by commas.
pub open spec fn json_items(v: Seq<u32>) -> Seq<u8>
    decreases v.len(),
{
    if v.len() == 0 {
        Seq::empty()
    } else if v.len() == 1 {
        decimal_bytes(v[0] as nat)
    } else {
        json_items(v.drop_last()) + seq![44u8] + decimal_bytes(v.last() as nat)
    }
}

/// The compact JSON array of the integers of `v`: `[`, the items, `]`.
pub open spec fn json_array(v: Seq<u32>) -> Seq<u8> {
    seq![91u8] + json_items(v) + seq![93u8]
}

/// Names what serde_json reads from bytes as a sequence of integers.
pub uninterp spec fn features_of_json(b: Seq<u8>) -> Option<Seq<u32>>;

/// Relies on `serde_json::to_vec` on a `Vec<u32>`: the compact formatter
/// writes `[`, each integer in decimal with a `,` between two of them, and
/// `]`. It fails only where a `Serialize` impl fails or a map has keys that are
/// not strings, neither of which a `Vec<u32>` has.
#[verifier::external_body]
fn json_of_features(v: &Vec<u32>) -> (r: Option<Vec<u8>>)
    ensures
        r is Some,
        r matches Some(b) ==> b@ == json_array(v@),
{
    serde_json::to_vec(v).ok()
}

/// Relies on `serde_json::from_slice::<Vec<u32>>`: reads a JSON array of
/// integers, a function of the bytes alone; an error becomes `None`.
#[verifier::external_body]
fn features_from_json(b: &[u8]) -> (r: Option<Vec<u32>>)
    ensures
        r matches Some(v) ==> features_of_json(b@) == Some(v@),
        r is None ==> features_of_json(b@) is None,
{
    serde_json::from_slice::<Vec<u32>>(b).ok()
}

impl GlobalFeature {
    pub closed spec fn wf(&self) -> bool {
        &&& self.order@.no_duplicates()
        &&& self.set@ == self.order@.to_set()
    }

    /// The features in order of first insertion.
    pub closed spec fn spec_features(&self) -> Seq<u32> {
        self.order@
    }

    pub proof fn lemma_features_view(&self)
        requires
            self.wf(),
        ensures
            self.spec_features().no_duplicates(),
            self.spec_features().to_set() == self@,
    {
    }

    pub fn new() -> (r: GlobalFeature)
        ensures
            r.wf(),
            r@ == Set::<u32>::empty(),
            r.spec_features() == Seq::<u32>::empty(),
    {
        let r = GlobalFeature { set: HashSet::new(), order: Vec::new() };
        assert(r.order@.to_set() =~= Set::<u32>::empty());
        r
    }

    /// Adds `f`; true when it was not there before.
    pub fn insert_feature(&mut self, f: u32) -> (r: bool)
        requires
            old(self).wf(),
        ensures
            final(self).wf(),
            final(self)@ == old(self)@.insert(f),
            r == !old(self)@.contains(f),
            r ==> final(self).spec_features() == old(self).spec_features().push(f),
            !r ==> final(self).spec_features() == old(self).spec_features(),
    {
        let fresh = self.set.insert(f);
        if fresh {
            self.order.push(f);
            assert(self.order@.to_set() =~= self.set@) by {
                assert forall|x: u32| self.order@.contains(x) <==> self.set@.contains(x) by {
                    if x != f && self.order@.contains(x) {
                        let k = choose|k: int| 0 <= k < self.order@.len() && self.order@[k] == x;
                        assert(self.order@.drop_last()[k] == x);
                    }
                    if x == f {
                        assert(self.order@[self.order@.len() - 1] == f);
                    }
                    if x != f && self.set@.contains(x) {
                        assert(old(self).order@.to_set().contains(x));
                        let k = choose|k: int|
                            0 <= k < old(self).order@.len() && old(self).order@[k] == x;
                        assert(self.order@[k] == x);
                    }
                }
            }
            assert(self.order@.no_duplicates()) by {
                assert(!old(self).order@.contains(f)) by {
                    if old(self).order@.contains(f) {
                        assert(old(self).order@.to_set().contains(f));
                    }
                }
            }
        } else {
            assert(self.set@ =~= old(self).set@);
        }
        fresh
    }

    /// Whether `f` is in the set.
    pub fn contains(&self, f: u32) -> (r: bool)
        requires
            self.wf(),
        ensures
            r == self@.contains(f),
    {
        self.set.contains(&f)
    }

    /// The number of features.
    pub fn len(&self) -> (r: usize)
        requires
            self.wf(),
        ensures
            r == self@.len(),
    {
        proof {
            self.order@.unique_seq_to_set();
        }
        self.order.len()
    }

    /// The features, in order of first insertion.
    pub fn features(&self) -> (r: Vec<u32>)
        requires
            self.wf(),
        ensures
            r@ == self.spec_features(),
    {
        self.order.clone()
    }

    /// The set holding the features of `v`; repeats count once and the first
    /// occurrence fixes the order.
    pub fn from_features(v: &Vec<u32>) -> (r: GlobalFeature)
        ensures
            r.wf(),
            r@ == add_all(Set::<u32>::empty(), v@),
    {
        let mut r = GlobalFeature::new();
        let mut i: usize = 0;
        while i < v.len()
            invariant
                i <= v@.len(),
                r.wf(),
                r@ == add_all(Set::<u32>::empty(), v@.subrange(0, i as int)),
            decreases v.len() - i,
        {
            assert(v@.subrange(0, i + 1).drop_last() =~= v@.subrange(0, i as int));
            r.insert_feature(v[i]);
            i = i + 1;
        }
        assert(v@.subrange(0, v@.len() as int) =~= v@);
        r
    }

    /// The set stored as `bytes`, or `None` where they are not a JSON array of
    /// 32-bit unsigned integers.
    pub fn decode(bytes: &[u8]) -> (r: Option<GlobalFeature>)
        ensures
            r is Some <==> features_of_json(bytes@) is Some,
            r matches Some(g) ==> g.wf() && g@ == add_all(Set::<u32>::empty(), features_of_json(bytes@)->0),
    {
        match features_from_json(bytes) {
            Some(v) => Some(GlobalFeature::from_features(&v)),
            None => None,
        }
    }

    /// The stored form: the JSON array of the features in order of first insertion.
    pub fn encode(&self) -> (r: Vec<u8>)
        requires
            self.wf(),
        ensures
            r@ == json_array(self.spec_features()),
    {
        let v = self.features();
        match json_of_features(&v) {
            Some(b) => b,
            None => Vec::new(),
        }
    }
}

/// Adds the features of each merged input to `global`, in order, and returns
/// the inputs that brought a feature it lacked: those are copied into the
/// shared corpus.
pub fn evolve_corpus(global: &mut GlobalFeature, corpora: &CorporaFeatures) -> (r: Vec<String>)
    requires
        old(global).wf(),
    ensures
        final(global).wf(),
        final(global)@ == evolve_global(old(global)@, corpora.spec_entries()),
        r@.map_values(|s: String| s@) == interesting(old(global)@, corpora.spec_entries()),
{
    let ghost g0 = global@;
    let ghost es = corpora.spec_entries();
    let mut r: Vec<String> = Vec::new();
    let mut i: usize = 0;
    while i < corpora.entries.len()
        invariant
            es == corpora.spec_entries(),
            i <= es.len(),
            global.wf(),
            global@ == evolve_global(g0, es.subrange(0, i as int)),
            r@.map_values(|s: String| s@) == interesting(g0, es.subrange(0, i as int)),
        decreases corpora.entries.len() - i,
    {
        let entry = &corpora.entries[i];
        let ghost gi = global@;
        let ghost fs = entry.features@;
        assert(es[i as int] == (entry.file@, fs));
        let mut fresh = false;
        let mut j: usize = 0;
        while j < entry.features.len()
            invariant
                fs == entry.features@,
                j <= fs.len(),
                global.wf(),
                global@ == add_all(gi, fs.subrange(0, j as int)),
                fresh <==> has_new(gi, fs.subrange(0, j as int)),
            decreases entry.features.len() - j,
        {
            let f = entry.features[j];
            let ghost before = global@;
            let ghost pre = fs.subrange(0, j as int);
            let ghost next = fs.subrange(0, j + 1);
            assert(next.drop_last() =~= pre);
            assert(next.last() == f);
            let added = global.insert_feature(f);
            proof {
                lemma_add_all_contains(gi, pre, f);
                if has_new(gi, pre) {
                    let k = choose|k: int| 0 <= k < pre.len() && !gi.contains(#[trigger] pre[k]);
                    assert(next[k] == pre[k]);
                }
                if has_new(gi, next) {
                    let k = choose|k: int| 0 <= k < next.len() && !gi.contains(#[trigger] next[k]);
                    if k < j {
                        assert(pre[k] == next[k]);
                    } else if !added {
                        if pre.contains(f) {
                            let w = choose|w: int| 0 <= w < pre.len() && pre[w] == f;
                            assert(!gi.contains(pre[w]));
                        }
                    }
                }
            }
            if added {
                fresh = true;
            }
            j = j + 1;
        }
        assert(fs.subrange(0, fs.len() as int) =~= fs);
        assert(es.subrange(0, i + 1).drop_last() =~= es.subrange(0, i as int));
        assert(es.subrange(0, i + 1).last() == es[i as int]);
        if fresh {
            r.push(entry.file.clone());
        }
        assert(r@.map_values(|s: String| s@) =~= interesting(g0, es.subrange(0, i + 1)));
        i = i + 1;
    }
    assert(es.subrange(0, es.len() as int) =~= es);
    r
}

} // verus!
