//! The immutable configuration that every extraction task receives.

use vstd::prelude::*;

verus! {

/// Codec identifier forwarded to the parquet writer. The engine never
/// interprets it; it only carries the choice through to the output layer.
#[derive(Debug, Clone, Copy, PartialEq, Eq, Structural)]
pub enum Compression {
    Uncompressed,
    Snappy,
    Gzip,
    Lzo,
    Brotli,
    Lz4,
    Zstd,
    Lz4Raw,
}

/// Options for one extraction run, value-copied to every task.
///
/// `min_file_size` and `max_file_size` are byte thresholds on entry sizes;
/// `max_depth` of `None` disables recursion into nested archives, `Some(n)`
/// allows descending up to `n` levels; `only_text` skips entries that are not
/// valid UTF-8 and marks the content column as text; `unique` enables both
/// deduplication stages; `ignore_unsupported` silently drops inputs whose
/// format cannot be detected.
#[derive(Debug, Clone, Copy)]
pub struct ExtractionOptions {
    pub min_file_size: u64,
    pub max_file_size: Option<u64>,
    pub max_depth: Option<usize>,
    pub only_text: bool,
    pub threads: usize,
    pub unique: bool,
    pub ignore_unsupported: bool,
    pub compression: Compression,
}

/// Two configurations agree on everything the per-entry gates and the
/// deduplication scopes read: the size bounds, the text flag and the
/// uniqueness flag. Recursive descent changes only the recursion budget,
/// so the configuration a descent runs under keeps the gates of the run.
pub open spec fn same_gates(a: ExtractionOptions, b: ExtractionOptions) -> bool {
    &&& a.min_file_size == b.min_file_size
    &&& a.max_file_size == b.max_file_size
    &&& a.only_text == b.only_text
    &&& a.unique == b.unique
}

impl ExtractionOptions {
    /// A well-formed configuration has at least one worker and never holds a
    /// recursion budget of zero: "no recursion" is expressed by `None`.
    pub open spec fn wf(self) -> bool {
        &&& self.threads >= 1
        &&& (self.max_depth matches Some(d) ==> d >= 1)
    }

    /// The size gate: a record may only be emitted for an entry whose
    /// declared size is positive, at least `min_file_size`, and at most
    /// `max_file_size` when that bound is set.
    pub open spec fn spec_size_ok(self, size: u64) -> bool {
        &&& size > 0
        &&& size >= self.min_file_size
        &&& (self.max_file_size matches Some(m) ==> size <= m)
    }

    /// How many more levels of nested archives may be entered.
    pub open spec fn depth_budget(self) -> nat {
        match self.max_depth {
            None => 0,
            Some(d) => d as nat,
        }
    }

    /// The configuration handed to a recursive descent: one level of the
    /// recursion budget is spent, everything else is kept.
    pub open spec fn spec_decrement(self) -> ExtractionOptions {
        ExtractionOptions {
            max_depth: match self.max_depth {
                Some(d) => if d >= 2 {
                    Some((d - 1) as usize)
                } else {
                    None
                },
                None => None,
            },
            ..self
        }
    }

    /// Copy of the options with `max_depth` decremented; `None` when the
    /// budget is spent. Never mutates the caller's configuration.
    pub fn decrement_max_depth(self) -> (r: ExtractionOptions)
        requires
            self.max_depth is Some,
            self.wf(),
        ensures
            r == self.spec_decrement(),
            r.wf(),
            r.depth_budget() == self.depth_budget() - 1,
    {
        let mut cloned = self;
        let d = match cloned.max_depth {
            Some(d) => d,
            None => 1,  // unreachable under the precondition
        };
        cloned.max_depth = if d >= 2 {
            Some(d - 1)
        } else {
            None
        };
        cloned
    }

    /// True exactly when the size gate lets an entry of `size` bytes through.
    pub fn check_file_size(&self, size: u64) -> (r: bool)
        ensures
            r == self.spec_size_ok(size),
    {
        if size < self.min_file_size || size == 0 {
            return false;
        }
        if let Some(max_file_size) = self.max_file_size {
            if size > max_file_size {
                return false;
            }
        }
        true
    }
}

} // verus!
