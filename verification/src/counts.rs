//! Monotonically accumulating per-run counters.
//!
//! Four aggregates are kept: `read` (entries observed), `skipped` (entries
//! filtered out by the size gate, by a non-regular type, by a path that is
//! not UTF-8, or by the text gate), `deduplicated` (rows removed by either
//! deduplication stage) and `written` (rows persisted). Combination
//! saturates at `usize::MAX` so that no sum can overflow; the exact
//! (unbounded) accounting lives in the specification model.

use vstd::prelude::*;

verus! {

/// The four counters of one run or of one task.
#[derive(Debug, Clone, Copy, PartialEq, Eq, Structural)]
pub struct Counts {
    pub read: usize,
    pub skipped: usize,
    pub deduplicated: usize,
    pub written: usize,
}

/// Saturating addition on `usize`-sized counters, as a mathematical value.
pub open spec fn sat_add(a: usize, b: usize) -> usize {
    if a + b > usize::MAX {
        usize::MAX
    } else {
        (a + b) as usize
    }
}

/// A mathematical count clamped to what a `usize` counter can show.
pub open spec fn sat_nat(n: nat) -> usize {
    if n > usize::MAX {
        usize::MAX
    } else {
        n as usize
    }
}

/// Clamping commutes with addition: growing an exact count by `b` moves
/// its clamped value exactly as a saturating add does.
pub proof fn lemma_sat_nat_add(a: nat, b: usize)
    ensures
        sat_nat((a + b) as nat) == sat_add(sat_nat(a), b),
{
}

/// Clamping commutes with addition of two exact counts.
pub proof fn lemma_sat_nat_plus(a: nat, b: nat)
    ensures
        sat_nat((a + b) as nat) == sat_add(sat_nat(a), sat_nat(b)),
{
}

impl Counts {
    /// All four counters at zero.
    pub open spec fn spec_zero() -> Counts {
        Counts { read: 0, skipped: 0, deduplicated: 0, written: 0 }
    }

    /// Field-wise saturating sum of two counter sets.
    pub open spec fn spec_plus(self, rhs: Counts) -> Counts {
        Counts {
            read: sat_add(self.read, rhs.read),
            skipped: sat_add(self.skipped, rhs.skipped),
            deduplicated: sat_add(self.deduplicated, rhs.deduplicated),
            written: sat_add(self.written, rhs.written),
        }
    }

    /// All four counters at zero.
    pub fn zero() -> (r: Counts)
        ensures
            r == Counts::spec_zero(),
    {
        Counts { read: 0, skipped: 0, deduplicated: 0, written: 0 }
    }

    /// Counters for one entry that was read and emitted as a record.
    pub fn new_processed() -> (r: Counts)
        ensures
            r == (Counts { read: 1, skipped: 0, deduplicated: 0, written: 1 }),
    {
        Counts { read: 1, skipped: 0, deduplicated: 0, written: 1 }
    }

    /// Counters for one entry that was read and filtered out.
    pub fn new_skipped() -> (r: Counts)
        ensures
            r == (Counts { read: 1, skipped: 1, deduplicated: 0, written: 0 }),
    {
        Counts { read: 1, skipped: 1, deduplicated: 0, written: 0 }
    }

    /// Counters recording only rows removed by deduplication.
    pub fn new_deduplicated(deduplicated: usize) -> (r: Counts)
        ensures
            r == (Counts { read: 0, skipped: 0, deduplicated, written: 0 }),
    {
        Counts { read: 0, skipped: 0, deduplicated, written: 0 }
    }

    /// Record one more entry as observed and filtered out.
    pub fn skipped(&mut self)
        ensures
            *final(self) == (Counts {
                read: sat_add(old(self).read, 1),
                skipped: sat_add(old(self).skipped, 1),
                ..*old(self)
            }),
    {
        self.read = self.read.saturating_add(1);
        self.skipped = self.skipped.saturating_add(1);
    }

    /// Field-wise saturating sum. Saturation only matters near
    /// `usize::MAX`; on any realistic run the sum is exact.
    pub fn plus(self, rhs: Counts) -> (r: Counts)
        ensures
            r == self.spec_plus(rhs),
    {
        Counts {
            read: self.read.saturating_add(rhs.read),
            skipped: self.skipped.saturating_add(rhs.skipped),
            deduplicated: self.deduplicated.saturating_add(rhs.deduplicated),
            written: self.written.saturating_add(rhs.written),
        }
    }

    /// Fold `rhs` into `self`, field-wise and saturating.
    pub fn accumulate(&mut self, rhs: Counts)
        ensures
            *final(self) == old(self).spec_plus(rhs),
    {
        self.read = self.read.saturating_add(rhs.read);
        self.skipped = self.skipped.saturating_add(rhs.skipped);
        self.deduplicated = self.deduplicated.saturating_add(rhs.deduplicated);
        self.written = self.written.saturating_add(rhs.written);
    }
}

impl Default for Counts {
    /// All four counters at zero.
    fn default() -> (r: Counts)
        ensures
            r == Counts::spec_zero(),
    {
        Counts::zero()
    }
}

/// Counter combination is commutative: the order in which two tasks' counts
/// are folded together does not matter.
pub proof fn lemma_plus_commutative(a: Counts, b: Counts)
    ensures
        a.spec_plus(b) == b.spec_plus(a),
{
}

/// Counter combination is associative: per-task counts may be summed into a
/// global total in any grouping.
pub proof fn lemma_plus_associative(a: Counts, b: Counts, c: Counts)
    ensures
        a.spec_plus(b).spec_plus(c) == a.spec_plus(b.spec_plus(c)),
{
}

} // verus!
