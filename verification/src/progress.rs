//! Progress counters for human-oriented display.
//!
//! These aggregates only feed progress reporting; they wrap around on
//! overflow, as the display layer's counters always did, and nothing in
//! the engine's accounting depends on them.

use vstd::prelude::*;

verus! {

/// One more on a wrapping 64-bit counter.
pub open spec fn wrap_inc(v: u64) -> u64 {
    if v < u64::MAX {
        (v + 1) as u64
    } else {
        0
    }
}

/// `a + b` on a wrapping 64-bit counter.
pub open spec fn wrap_plus(a: u64, b: u64) -> u64 {
    if a + b > u64::MAX {
        (a + b - u64::MAX - 1) as u64
    } else {
        (a + b) as u64
    }
}

/// Counters of the reading side: entries and archives observed, batches
/// sent onward.
#[derive(Debug, Clone, Copy, PartialEq, Eq, Structural)]
pub struct Counters {
    pub entries_read: u64,
    pub entries_read_bytes: u64,
    pub archives_read: u64,
    pub batches_sent: u64,
}

impl Counters {
    pub fn new() -> (r: Counters)
        ensures
            r == (Counters {
                entries_read: 0,
                entries_read_bytes: 0,
                archives_read: 0,
                batches_sent: 0,
            }),
    {
        Counters { entries_read: 0, entries_read_bytes: 0, archives_read: 0, batches_sent: 0 }
    }

    /// One more archive was opened.
    pub fn read_archive(&mut self)
        ensures
            *final(self) == (Counters {
                archives_read: wrap_inc(old(self).archives_read),
                ..*old(self)
            }),
    {
        self.archives_read = self.archives_read.wrapping_add(1);
    }

    /// One more batch was sent to the output side.
    pub fn sent_batch(&mut self)
        ensures
            *final(self) == (Counters {
                batches_sent: wrap_inc(old(self).batches_sent),
                ..*old(self)
            }),
    {
        self.batches_sent = self.batches_sent.wrapping_add(1);
    }

    /// One more entry of `size` bytes was read.
    pub fn read_entry(&mut self, size: u64)
        ensures
            *final(self) == (Counters {
                entries_read: wrap_inc(old(self).entries_read),
                entries_read_bytes: wrap_plus(old(self).entries_read_bytes, size),
                ..*old(self)
            }),
    {
        self.entries_read = self.entries_read.wrapping_add(1);
        self.entries_read_bytes = self.entries_read_bytes.wrapping_add(size);
    }
}

impl Default for Counters {
    fn default() -> (r: Counters)
        ensures
            r == (Counters {
                entries_read: 0,
                entries_read_bytes: 0,
                archives_read: 0,
                batches_sent: 0,
            }),
    {
        Counters::new()
    }
}

/// What one handled batch contributed to the output.
#[derive(Debug, Clone, Copy, PartialEq, Eq, Structural)]
pub struct WriteBatchOutput {
    pub num_rows: u64,
    pub bytes: u64,
}

/// Counters of the writing side.
#[derive(Debug, Clone, Copy, PartialEq, Eq, Structural)]
pub struct OutputCounter {
    pub output_rows: u64,
    pub output_bytes: u64,
    pub batches_pending: u64,
}

impl OutputCounter {
    pub fn new() -> (r: OutputCounter)
        ensures
            r == (OutputCounter { output_rows: 0, output_bytes: 0, batches_pending: 0 }),
    {
        OutputCounter { output_rows: 0, output_bytes: 0, batches_pending: 0 }
    }

    /// Fold one handled batch into the totals and record how many batches
    /// are still pending.
    pub fn batch_handled(&mut self, output: WriteBatchOutput, pending_batches: u64)
        ensures
            *final(self) == (OutputCounter {
                output_rows: wrap_plus(old(self).output_rows, output.num_rows),
                output_bytes: wrap_plus(old(self).output_bytes, output.bytes),
                batches_pending: pending_batches,
            }),
    {
        self.output_rows = self.output_rows.wrapping_add(output.num_rows);
        self.output_bytes = self.output_bytes.wrapping_add(output.bytes);
        self.batches_pending = pending_batches;
    }
}

impl Default for OutputCounter {
    fn default() -> (r: OutputCounter)
        ensures
            r == (OutputCounter { output_rows: 0, output_bytes: 0, batches_pending: 0 }),
    {
        OutputCounter::new()
    }
}

} // verus!
