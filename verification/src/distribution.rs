//! The distribution table of a bounty: which percentage of the net reward
//! each finishing rank receives. Rank 1 is the top-paid slot.

use vstd::prelude::*;
use crate::types::Error;

verus! {

/// Sum of the percentages of all pairs.
pub open spec fn sum_percent(pairs: Seq<(u32, u32)>) -> int
    decreases pairs.len(),
{
    if pairs.len() == 0 {
        0
    } else {
        sum_percent(pairs.drop_last()) + pairs.last().1
    }
}

/// No rank is declared twice.
pub open spec fn ranks_unique(pairs: Seq<(u32, u32)>) -> bool {
    forall|i: int, j: int| 0 <= i < j < pairs.len() ==> pairs[i].0 != pairs[j].0
}

/// Every rank is at least 1.
pub open spec fn ranks_positive(pairs: Seq<(u32, u32)>) -> bool {
    forall|i: int| 0 <= i < pairs.len() ==> (#[trigger] pairs[i]).0 >= 1
}

/// What makes a list of `(rank, percent)` pairs a distribution table: it is
/// not empty, its ranks are positive and unique, and its percentages sum to
/// exactly one hundred.
pub open spec fn pairs_valid(pairs: Seq<(u32, u32)>) -> bool {
    &&& pairs.len() > 0
    &&& ranks_positive(pairs)
    &&& ranks_unique(pairs)
    &&& sum_percent(pairs) == 100
}

/// The percentage declared for `rank`, if any. Where a rank occurs more than
/// once the last declaration counts.
pub open spec fn percent_for(pairs: Seq<(u32, u32)>, rank: int) -> Option<u32>
    decreases pairs.len(),
{
    if pairs.len() == 0 {
        None
    } else if pairs.last().0 == rank {
        Some(pairs.last().1)
    } else {
        percent_for(pairs.drop_last(), rank)
    }
}

/// The percentage of `rank`, zero where the table does not declare it.
pub open spec fn percent_at(pairs: Seq<(u32, u32)>, rank: int) -> int {
    match percent_for(pairs, rank) {
        Some(p) => p as int,
        None => 0,
    }
}

/// Sum of the percentages of ranks `1..=n`.
pub open spec fn covered(pairs: Seq<(u32, u32)>, n: nat) -> int
    decreases n,
{
    if n == 0 {
        0
    } else {
        covered(pairs, (n - 1) as nat) + percent_at(pairs, n as int)
    }
}

/// Extending a prefix by one pair adds that pair's percentage.
pub proof fn lemma_sum_percent_take_step(pairs: Seq<(u32, u32)>, i: int)
    requires
        0 <= i < pairs.len(),
    ensures
        sum_percent(pairs.take(i + 1)) == sum_percent(pairs.take(i)) + pairs[i].1,
{
    assert(pairs.take(i + 1).drop_last() =~= pairs.take(i));
}

/// Percentages are not negative, and so is their sum.
pub proof fn lemma_sum_percent_nonnegative(pairs: Seq<(u32, u32)>)
    ensures
        0 <= sum_percent(pairs),
    decreases pairs.len(),
{
    if pairs.len() > 0 {
        lemma_sum_percent_nonnegative(pairs.drop_last());
    }
}

/// The sum over a prefix never exceeds the sum over the whole list.
pub proof fn lemma_sum_percent_prefix(pairs: Seq<(u32, u32)>, i: int)
    requires
        0 <= i <= pairs.len(),
    ensures
        0 <= sum_percent(pairs.take(i)) <= sum_percent(pairs),
    decreases pairs.len() - i,
{
    lemma_sum_percent_nonnegative(pairs.take(i));
    if i < pairs.len() {
        lemma_sum_percent_take_step(pairs, i);
        lemma_sum_percent_prefix(pairs, i + 1);
    } else {
        assert(pairs.take(i) =~= pairs);
    }
}

/// A rank that no pair declares has no percentage.
pub proof fn lemma_percent_for_absent(pairs: Seq<(u32, u32)>, rank: int)
    requires
        forall|i: int| 0 <= i < pairs.len() ==> (#[trigger] pairs[i]).0 != rank,
    ensures
        percent_for(pairs, rank) is None,
    decreases pairs.len(),
{
    if pairs.len() > 0 {
        assert(pairs.last() == pairs[pairs.len() - 1]);
        let init = pairs.drop_last();
        assert forall|i: int| 0 <= i < init.len() implies (#[trigger] init[i]).0 != rank by {
            assert(init[i] == pairs[i]);
        }
        lemma_percent_for_absent(init, rank);
    }
}

/// Where no pair after position `i` declares `rank`, the pair at `i` decides.
pub proof fn lemma_percent_for_found(pairs: Seq<(u32, u32)>, i: int, rank: int)
    requires
        0 <= i < pairs.len(),
        pairs[i].0 == rank,
        forall|j: int| i < j < pairs.len() ==> (#[trigger] pairs[j]).0 != rank,
    ensures
        percent_for(pairs, rank) == Some(pairs[i].1),
    decreases pairs.len(),
{
    if i < pairs.len() - 1 {
        assert(pairs.last() == pairs[pairs.len() - 1]);
        let init = pairs.drop_last();
        assert(init[i] == pairs[i]);
        assert forall|j: int| i < j < init.len() implies (#[trigger] init[j]).0 != rank by {
            assert(init[j] == pairs[j]);
        }
        lemma_percent_for_found(init, i, rank);
    }
}

/// A rank beyond the range of `u32` is declared by no table.
pub proof fn lemma_percent_for_out_of_range(table: Seq<(u32, u32)>, rank: int)
    requires
        rank > u32::MAX,
    ensures
        percent_for(table, rank) is None,
        percent_at(table, rank) == 0,
    decreases table.len(),
{
    if table.len() > 0 {
        lemma_percent_for_out_of_range(table.drop_last(), rank);
    }
}

/// The percentages of the ranks `1..=n` together are not negative.
pub proof fn lemma_covered_nonnegative(pairs: Seq<(u32, u32)>, n: nat)
    ensures
        0 <= covered(pairs, n),
    decreases n,
{
    if n > 0 {
        lemma_covered_nonnegative(pairs, (n - 1) as nat);
    }
}

proof fn lemma_covered_step(init: Seq<(u32, u32)>, pair: (u32, u32), n: nat)
    ensures
        covered(init.push(pair), n) <= covered(init, n) + (if 1 <= pair.0 <= n {
            pair.1 as int
        } else {
            0
        }),
    decreases n,
{
    if n > 0 {
        lemma_covered_step(init, pair, (n - 1) as nat);
        assert(init.push(pair).drop_last() =~= init);
        assert(init.push(pair).last() == pair);
    }
}

/// The percentages of the ranks `1..=n` together never exceed the sum over
/// the whole table, whatever the table holds.
pub proof fn lemma_covered_bounded(pairs: Seq<(u32, u32)>, n: nat)
    ensures
        0 <= covered(pairs, n) <= sum_percent(pairs),
    decreases pairs.len(),
{
    lemma_covered_nonnegative(pairs, n);
    if pairs.len() == 0 {
        lemma_covered_empty(pairs, n);
    } else {
        let init = pairs.drop_last();
        assert(init.push(pairs.last()) =~= pairs);
        lemma_covered_bounded(init, n);
        lemma_covered_step(init, pairs.last(), n);
    }
}

proof fn lemma_covered_empty(pairs: Seq<(u32, u32)>, n: nat)
    requires
        pairs.len() == 0,
    ensures
        covered(pairs, n) == 0,
    decreases n,
{
    if n > 0 {
        lemma_covered_empty(pairs, (n - 1) as nat);
    }
}

/// Whether the percentages of the pairs sum to exactly one hundred.
pub fn validate_distribution_sum(distribution: &Vec<(u32, u32)>) -> (ok: bool)
    ensures
        ok == (sum_percent(distribution@) == 100),
{
    let mut total: u32 = 0;
    let mut i: usize = 0;
    proof {
        lemma_sum_percent_prefix(distribution@, 0);
    }
    while i < distribution.len()
        invariant
            i <= distribution.len(),
            total == sum_percent(distribution@.take(i as int)),
            total <= 100,
        decreases distribution.len() - i,
    {
        let pct: u32 = distribution[i].1;
        proof {
            lemma_sum_percent_take_step(distribution@, i as int);
            lemma_sum_percent_prefix(distribution@, i + 1);
        }
        if pct > 100 - total {
            return false;
        }
        total = total + pct;
        i = i + 1;
    }
    proof {
        assert(distribution@.take(i as int) =~= distribution@);
    }
    total == 100
}

/// Whether no rank is declared twice.
pub fn has_unique_ranks(pairs: &Vec<(u32, u32)>) -> (ok: bool)
    ensures
        ok == ranks_unique(pairs@),
{
    let mut j: usize = 0;
    while j < pairs.len()
        invariant
            j <= pairs.len(),
            forall|a: int, b: int| 0 <= a < b < j ==> pairs@[a].0 != pairs@[b].0,
        decreases pairs.len() - j,
    {
        let mut i: usize = 0;
        while i < j
            invariant
                i <= j < pairs.len(),
                forall|a: int| 0 <= a < i ==> (#[trigger] pairs@[a]).0 != pairs@[j as int].0,
            decreases j - i,
        {
            if pairs[i].0 == pairs[j].0 {
                return false;
            }
            i = i + 1;
        }
        j = j + 1;
    }
    true
}

/// Whether every rank is at least 1.
pub fn has_positive_ranks(pairs: &Vec<(u32, u32)>) -> (ok: bool)
    ensures
        ok == ranks_positive(pairs@),
{
    let mut i: usize = 0;
    while i < pairs.len()
        invariant
            i <= pairs.len(),
            forall|a: int| 0 <= a < i ==> (#[trigger] pairs@[a]).0 >= 1,
        decreases pairs.len() - i,
    {
        if pairs[i].0 == 0 {
            return false;
        }
        i = i + 1;
    }
    true
}

/// A copy of the pairs.
pub fn copy_pairs(pairs: &Vec<(u32, u32)>) -> (r: Vec<(u32, u32)>)
    ensures
        r@ == pairs@,
{
    let mut r: Vec<(u32, u32)> = Vec::new();
    let mut i: usize = 0;
    while i < pairs.len()
        invariant
            i <= pairs.len(),
            r@ == pairs@.take(i as int),
        decreases pairs.len() - i,
    {
        r.push((pairs[i].0, pairs[i].1));
        proof {
            assert(pairs@.take(i as int).push(pairs@[i as int]) =~= pairs@.take(i + 1));
        }
        i = i + 1;
    }
    proof {
        assert(pairs@.take(i as int) =~= pairs@);
    }
    r
}

/// A validated mapping from finishing rank to percentage of the net reward.
#[derive(Debug, PartialEq, Eq)]
pub struct DistributionTable {
    pub entries: Vec<(u32, u32)>,
}

impl Clone for DistributionTable {
    fn clone(&self) -> (r: DistributionTable)
        ensures
            r@ == self@,
    {
        DistributionTable { entries: copy_pairs(&self.entries) }
    }
}

impl View for DistributionTable {
    type V = Seq<(u32, u32)>;

    open spec fn view(&self) -> Seq<(u32, u32)> {
        self.entries@
    }
}

impl DistributionTable {
    /// The table's invariant.
    pub open spec fn wf(&self) -> bool {
        pairs_valid(self@)
    }

    /// Builds the table from `(rank, percent)` pairs, or refuses them with
    /// `DistributionMustSumTo100` when they are not a distribution table.
    pub fn from_pairs(pairs: &Vec<(u32, u32)>) -> (r: Result<DistributionTable, Error>)
        ensures
            match r {
                Ok(table) => pairs_valid(pairs@) && table@ == pairs@,
                Err(e) => !pairs_valid(pairs@) && e == Error::DistributionMustSumTo100,
            },
    {
        if pairs.len() == 0 || !has_positive_ranks(pairs) || !has_unique_ranks(pairs)
            || !validate_distribution_sum(pairs) {
            return Err(Error::DistributionMustSumTo100);
        }
        Ok(DistributionTable { entries: copy_pairs(pairs) })
    }

    /// Whether the value satisfies the table's invariant.
    pub fn is_valid(&self) -> (ok: bool)
        ensures
            ok == self.wf(),
    {
        self.entries.len() > 0 && has_positive_ranks(&self.entries) && has_unique_ranks(
            &self.entries,
        ) && validate_distribution_sum(&self.entries)
    }

    /// The number of declared ranks.
    pub fn len(&self) -> (n: usize)
        ensures
            n == self@.len(),
    {
        self.entries.len()
    }

    /// The percentage of `rank`, or `None` where the table does not declare it.
    pub fn get(&self, rank: u32) -> (r: Option<u32>)
        ensures
            r == percent_for(self@, rank as int),
    {
        let mut i: usize = self.entries.len();
        while i > 0
            invariant
                i <= self.entries.len(),
                forall|j: int| i <= j < self.entries.len() ==> (#[trigger] self.entries@[j]).0
                    != rank,
            decreases i,
        {
            i = i - 1;
            if self.entries[i].0 == rank {
                proof {
                    lemma_percent_for_found(self@, i as int, rank as int);
                }
                return Some(self.entries[i].1);
            }
        }
        proof {
            lemma_percent_for_absent(self@, rank as int);
        }
        None
    }
}

} // verus!
