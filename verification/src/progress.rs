//! The shared progress state of a search: how many directory entries are
//! known in total, and how many files have been visited so far.

use vstd::prelude::*;

verus! {

/// Addition on a progress counter clamps at the top of the range instead of
/// wrapping, so a counter is always monotone.
pub open spec fn sat_add(a: u64, n: nat) -> u64 {
    if a + n > u64::MAX {
        u64::MAX
    } else {
        (a + n) as u64
    }
}

/// The two counters a progress indicator renders: the denominator `total`
/// (entries known so far) and the numerator `visited` (files handled so far).
pub struct ProgressCounter {
    pub total: u64,
    pub visited: u64,
}

impl ProgressCounter {
    /// A counter always shows no more visited than total once counting has
    /// finished; while both walks run it only promises monotonicity.
    pub fn new() -> (r: ProgressCounter)
        ensures
            r.total == 0,
            r.visited == 0,
    {
        ProgressCounter { total: 0, visited: 0 }
    }

    /// Grows the denominator by the number of entries just discovered.
    pub fn increment_total(&mut self, delta: u64)
        ensures
            final(self).total == sat_add(old(self).total, delta as nat),
            final(self).visited == old(self).visited,
    {
        self.total = if self.total <= u64::MAX - delta {
            self.total + delta
        } else {
            u64::MAX
        };
    }

    /// Records one more visited file.
    pub fn advance(&mut self)
        ensures
            final(self).visited == sat_add(old(self).visited, 1),
            final(self).total == old(self).total,
    {
        self.visited = if self.visited < u64::MAX {
            self.visited + 1
        } else {
            u64::MAX
        };
    }

    /// At completion the indicator is driven to its end: everything counted
    /// is shown as visited.
    pub fn finalize(&mut self)
        ensures
            final(self).visited == old(self).total,
            final(self).total == old(self).total,
    {
        self.visited = self.total;
    }
}

/// Every mutation of a counter leaves `visited` no smaller than it was:
/// the numerator a progress indicator renders never moves backwards.
pub proof fn lemma_visited_monotone(before: u64, n: nat)
    ensures
        sat_add(before, n) >= before,
{
}

/// Clamped addition is monotone in the amount added, so a walk that visits
/// no more than was counted keeps the numerator within the denominator.
pub proof fn lemma_sat_add_monotone(a: u64, m: nat, n: nat)
    requires
        m <= n,
    ensures
        sat_add(a, m) <= sat_add(a, n),
{
}

/// Two clamped additions in a row add the sum of the two amounts.
pub proof fn lemma_sat_add_assoc(a: u64, m: nat, n: nat)
    ensures
        sat_add(sat_add(a, m), n) == sat_add(a, m + n),
{
}

} // verus!
