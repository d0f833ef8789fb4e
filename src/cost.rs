use vstd::prelude::*;

verus! {

/// The time one candidate spent in each stage, in microseconds.
#[derive(Clone, Copy, Debug, PartialEq, Eq, Structural)]
pub struct StageCost {
    pub syntax: u64,
    pub link: u64,
    pub execute: u64,
    pub fuzz: u64,
    pub coverage: u64,
    pub update: u64,
}

impl StageCost {
    pub open spec fn spec_total(&self) -> int {
        self.syntax + self.link + self.execute + self.fuzz + self.coverage + self.update
    }

    /// The time over all stages.
    pub fn total(&self) -> (r: u128)
        ensures
            r == self.spec_total(),
    {
        self.syntax as u128 + self.link as u128 + self.execute as u128 + self.fuzz as u128
            + self.coverage as u128 + self.update as u128
    }
}

/// The index of the first record with the greatest positive total among
/// `costs[..n]`, or -1 where no total is positive.
pub open spec fn slowest_index(costs: Seq<StageCost>, n: int) -> int
    decreases n,
{
    if n <= 0 {
        -1
    } else {
        let k = slowest_index(costs, n - 1);
        let best = if k < 0 { 0 } else { costs[k].spec_total() };
        if costs[n - 1].spec_total() > best {
            n - 1
        } else {
            k
        }
    }
}

proof fn lemma_slowest_index(costs: Seq<StageCost>, n: int)
    requires
        0 <= n <= costs.len(),
    ensures
        -1 <= slowest_index(costs, n) < n,
        slowest_index(costs, n) >= 0 ==> costs[slowest_index(costs, n)].spec_total() > 0,
        forall|j: int| 0 <= j < n ==> #[trigger] costs[j].spec_total() <= (if slowest_index(costs, n) < 0 {
            0
        } else {
            costs[slowest_index(costs, n)].spec_total()
        }),
    decreases n,
{
    if n > 0 {
        lemma_slowest_index(costs, n - 1);
    }
}

/// The stage times of the slowest candidate of a round, the first of them on
/// ties, to be reported and added to the running totals; `None` where every
/// candidate took no time.
pub fn print_san_cost(costs: &Vec<StageCost>) -> (r: Option<StageCost>)
    ensures
        slowest_index(costs@, costs@.len() as int) < 0 ==> r is None,
        slowest_index(costs@, costs@.len() as int) >= 0
            ==> r == Some(costs@[slowest_index(costs@, costs@.len() as int)]),
        r matches Some(c) ==> forall|j: int| 0 <= j < costs@.len() ==> #[trigger] costs@[j].spec_total() <= c.spec_total(),
{
    let mut max_time: u128 = 0;
    let mut best: Option<StageCost> = None;
    let mut i: usize = 0;
    while i < costs.len()
        invariant
            i <= costs@.len(),
            slowest_index(costs@, i as int) < 0 ==> best is None && max_time == 0,
            slowest_index(costs@, i as int) >= 0 ==> best == Some(costs@[slowest_index(costs@, i as int)])
                && max_time == costs@[slowest_index(costs@, i as int)].spec_total(),
        decreases costs.len() - i,
    {
        proof {
            lemma_slowest_index(costs@, i as int);
        }
        let total = costs[i].total();
        if total > max_time {
            max_time = total;
            best = Some(costs[i]);
        }
        i = i + 1;
    }
    proof {
        lemma_slowest_index(costs@, costs@.len() as int);
    }
    best
}

} // verus!
