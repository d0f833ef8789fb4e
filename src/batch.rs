use vstd::prelude::*;
use crate::error::ProgramError;
use crate::executor::Executor;

verus! {

/// A batched check of candidates: the candidates in input order, the batch
/// size, and the verdicts received so far, the `i`-th for the `i`-th candidate.
pub struct CheckRun {
    pub programs: Vec<String>,
    pub core: usize,
    pub verdicts: Vec<Option<ProgramError>>,
}

impl CheckRun {
    pub open spec fn wf(&self) -> bool {
        &&& self.core > 0
        &&& self.verdicts@.len() <= self.programs@.len()
    }

    /// Every candidate has its verdict.
    pub open spec fn spec_is_done(&self) -> bool {
        self.verdicts@.len() == self.programs@.len()
    }

    /// End of the next batch: at most `core` candidates after those answered.
    pub open spec fn spec_batch_end(&self) -> int {
        if self.verdicts@.len() + self.core <= self.programs@.len() {
            self.verdicts@.len() + self.core
        } else {
            self.programs@.len() as int
        }
    }

    /// The candidates of the next batch.
    pub open spec fn spec_next_batch(&self) -> Seq<String> {
        self.programs@.subrange(self.verdicts@.len() as int, self.spec_batch_end())
    }

    pub fn is_done(&self) -> (r: bool)
        requires
            self.wf(),
        ensures
            r == self.spec_is_done(),
    {
        self.verdicts.len() == self.programs.len()
    }

    /// The candidates to run together next, in input order.
    pub fn next_batch(&self) -> (r: Vec<String>)
        requires
            self.wf(),
        ensures
            r@ == self.spec_next_batch(),
            !self.spec_is_done() ==> 0 < r@.len() <= self.core,
    {
        let start = self.verdicts.len();
        let end = if self.programs.len() - start >= self.core {
            start + self.core
        } else {
            self.programs.len()
        };
        let mut r: Vec<String> = Vec::new();
        let mut i: usize = start;
        while i < end
            invariant
                start <= i <= end <= self.programs@.len(),
                start == self.verdicts@.len(),
                end == self.spec_batch_end(),
                r@ == self.programs@.subrange(start as int, i as int),
            decreases end - i,
        {
            r.push(self.programs[i].clone());
            assert(r@ =~= self.programs@.subrange(start as int, i + 1));
            i = i + 1;
        }
        r
    }

    /// Takes the verdicts of the batch that `next_batch` gave, in its order.
    pub fn record_batch(&mut self, results: Vec<Option<ProgramError>>)
        requires
            old(self).wf(),
            results@.len() == old(self).spec_next_batch().len(),
        ensures
            final(self).wf(),
            final(self).programs == old(self).programs,
            final(self).core == old(self).core,
            final(self).verdicts@ == old(self).verdicts@ + results@,
    {
        let mut results = results;
        self.verdicts.append(&mut results);
    }

    /// The verdicts, in the order of the candidates.
    pub fn into_verdicts(self) -> (r: Vec<Option<ProgramError>>)
        ensures
            r@ == self.verdicts@,
    {
        self.verdicts
    }
}

/// Batched checking keeps verdicts aligned with candidates: where every verdict
/// recorded so far is the one of the candidate at its position, and the next
/// batch's results are those of its candidates in order, then after recording
/// them every verdict is still the one of the candidate at its position, and a
/// finished run has exactly one verdict per candidate.
pub proof fn lemma_verdicts_aligned(
    before: CheckRun,
    results: Seq<Option<ProgramError>>,
    after: CheckRun,
    verdict_of: spec_fn(String) -> Option<ProgramError>,
)
    requires
        before.wf(),
        forall|i: int| 0 <= i < before.verdicts@.len() ==> #[trigger] before.verdicts@[i] == verdict_of(
            before.programs@[i],
        ),
        results.len() == before.spec_next_batch().len(),
        forall|j: int| 0 <= j < results.len() ==> #[trigger] results[j] == verdict_of(
            before.spec_next_batch()[j],
        ),
        after.programs == before.programs,
        after.core == before.core,
        after.verdicts@ == before.verdicts@ + results,
    ensures
        after.wf(),
        forall|i: int| 0 <= i < after.verdicts@.len() ==> #[trigger] after.verdicts@[i] == verdict_of(
            after.programs@[i],
        ),
        after.spec_is_done() ==> after.verdicts@.len() == after.programs@.len(),
{
    let start = before.verdicts@.len() as int;
    assert forall|i: int| 0 <= i < after.verdicts@.len() implies #[trigger] after.verdicts@[i] == verdict_of(
        after.programs@[i],
    ) by {
        if i < start {
            assert(after.verdicts@[i] == before.verdicts@[i]);
        } else {
            assert(after.verdicts@[i] == results[i - start]);
            assert(before.spec_next_batch()[i - start] == before.programs@[i]);
        }
    }
}

impl Executor {
    /// Starts a check of `programs` in batches of `core` candidates: each batch
    /// runs together and the next starts once it has fully joined.
    pub fn concurrent_check(&self, programs: Vec<String>, core: usize) -> (r: CheckRun)
        requires
            core > 0,
        ensures
            r.wf(),
            r.programs == programs,
            r.core == core,
            r.verdicts@.len() == 0,
    {
        CheckRun { programs, core, verdicts: Vec::new() }
    }
}

} // verus!
