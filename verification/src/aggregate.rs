//! Overflow-safe accumulation of per-entry line totals. A sum that would
//! exceed `usize::MAX` collapses to `usize::MAX`, the overflow sentinel,
//! instead of wrapping; once the sentinel is reached it is kept.

use vstd::prelude::*;

verus! {

/// Saturating addition on counts: the exact sum where it is representable,
/// the overflow sentinel `usize::MAX` where it is not.
pub open spec fn sat_add(a: nat, b: nat) -> nat {
    if a + b > usize::MAX {
        usize::MAX as nat
    } else {
        a + b
    }
}

/// The saturating sum of a sequence of counts, folded left to right.
pub open spec fn sat_sum(s: Seq<usize>) -> nat
    decreases s.len(),
{
    if s.len() == 0 {
        0
    } else {
        sat_add(sat_sum(s.drop_last()), s.last() as nat)
    }
}

/// The exact, unbounded sum of a sequence of counts.
pub open spec fn exact_sum(s: Seq<usize>) -> nat
    decreases s.len(),
{
    if s.len() == 0 {
        0
    } else {
        exact_sum(s.drop_last()) + s.last() as nat
    }
}

/// A saturating fold never wraps: it returns the exact sum where that sum is
/// representable, and exactly the sentinel `usize::MAX` where contributions
/// sum beyond the maximum representable value.
pub proof fn lemma_sat_sum_saturates(s: Seq<usize>)
    ensures
        sat_sum(s) == if exact_sum(s) > usize::MAX {
            usize::MAX as nat
        } else {
            exact_sum(s)
        },
    decreases s.len(),
{
    if s.len() == 0 {
    } else {
        lemma_sat_sum_saturates(s.drop_last());
    }
}

/// The running total of non-blank lines under one entry.
pub struct Aggregator {
    total: usize,
}

impl Aggregator {
    /// The total accumulated so far.
    pub closed spec fn spec_total(&self) -> nat {
        self.total as nat
    }

    /// A fresh accumulator, holding zero.
    pub fn new() -> (r: Self)
        ensures
            r.spec_total() == 0,
    {
        Aggregator { total: 0 }
    }

    /// Folds one child's contribution into the total, saturating at the
    /// overflow sentinel instead of wrapping.
    pub fn add(&mut self, n: usize)
        ensures
            final(self).spec_total() == sat_add(old(self).spec_total(), n as nat),
    {
        if n > usize::MAX - self.total {
            self.total = usize::MAX;
        } else {
            self.total = self.total + n;
        }
    }

    /// The accumulated total.
    pub fn total(&self) -> (r: usize)
        ensures
            r == self.spec_total(),
    {
        self.total
    }
}

/// Folds a whole sequence of child contributions, as a directory visit folds
/// the totals of its children.
pub fn sum_counts(counts: &Vec<usize>) -> (r: usize)
    ensures
        r == sat_sum(counts@),
{
    let mut acc = Aggregator::new();
    let mut i: usize = 0;
    while i < counts.len()
        invariant
            i <= counts@.len(),
            acc.spec_total() == sat_sum(counts@.take(i as int)),
        decreases counts@.len() - i,
    {
        acc.add(counts[i]);
        proof {
            assert(counts@.take(i as int + 1).drop_last() =~= counts@.take(i as int));
            assert(counts@.take(i as int + 1).last() == counts@[i as int]);
        }
        i = i + 1;
    }
    proof {
        assert(counts@.take(counts@.len() as int) =~= counts@);
    }
    acc.total()
}

} // verus!
