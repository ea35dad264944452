//! The shared output writer: the single consumer of finalized batches.
//!
//! The writer applies the cross-batch deduplication scope, counts written
//! and removed rows, and accumulates the surviving rows — the run's sink,
//! which `finish` hands out exactly once; writing afterwards fails with
//! the writer-closed error. The ghost field `received` records every row
//! the writer was ever handed, and the invariant pins the persisted rows
//! to the first-occurrence filter of that stream.

use vstd::prelude::*;
use crate::counts::{lemma_sat_nat_add, sat_nat, Counts};
use crate::dedup::{dedup_from, final_rows, hashes_of, lemma_dedup_concat, lemma_hashes_push};
use crate::digest::{contains_digest, digests_set, lemma_digests_push};
use crate::options::ExtractionOptions;
use crate::record::{rows_model, rows_wf, RecModel, Record};

verus! {

/// The errors of an extraction run.
#[derive(Debug, Clone, Copy, PartialEq, Eq, Structural)]
pub enum ExtractError {
    /// A byte stream could not be read or decoded (malformed container).
    Io,
    /// Columnar batch construction failed.
    Serialize,
    /// The persistence layer refused a batch or failed to finalize.
    Write,
    /// A write was attempted after the writer was finalized.
    WriterClosed,
}

/// A finalized batch: an ordered group of records, hashes filled in.
pub struct Batch {
    pub rows: Vec<Record>,
}

impl Batch {
    /// The models of the batch's rows, in order.
    pub open spec fn models(self) -> Seq<RecModel> {
        rows_model(self.rows@)
    }

    /// Every row is well-formed and carries a 32-byte digest.
    pub open spec fn wf(self, opts: ExtractionOptions) -> bool {
        &&& rows_wf(self.models(), opts)
        &&& forall|i: int|
            0 <= i < self.models().len() ==> (#[trigger] self.models()[i]).hash_len_ok()
    }
}

/// The single output writer of a run.
pub struct OutputWriter {
    pub options: ExtractionOptions,
    /// The persisted rows: what the columnar file will hold.
    pub rows: Vec<Record>,
    /// Digests of all persisted rows (used when `unique` is set).
    pub seen: Vec<Vec<u8>>,
    /// `written` and `deduplicated` of the cross-batch scope.
    pub counts: Counts,
    /// Set by `finish`; later writes fail with `WriterClosed`.
    pub closed: bool,
    /// Every row ever handed to `write_items`, in order.
    pub received: Ghost<Seq<RecModel>>,
}

impl OutputWriter {
    /// The writer's invariant while it is open: the persisted rows are the
    /// first-occurrence filter of everything received (or everything, when
    /// `unique` is off), the digest list mirrors the received hashes, every
    /// persisted row is well-formed, and the counters balance.
    pub open spec fn inv(self) -> bool {
        self.closed || {
            &&& rows_model(self.rows@) == final_rows(self.received@, self.options.unique)
            &&& (self.options.unique ==> digests_set(self.seen@) == hashes_of(self.received@))
            &&& rows_wf(rows_model(self.rows@), self.options)
            &&& (forall|i: int|
                0 <= i < self.rows@.len() ==> (#[trigger] rows_model(self.rows@)[i]).hash_len_ok())
            &&& self.rows@.len() <= self.received@.len()
            &&& self.counts == (Counts {
                read: 0,
                skipped: 0,
                deduplicated: sat_nat((self.received@.len() - self.rows@.len()) as nat),
                written: sat_nat(self.rows@.len()),
            })
        }
    }

    /// A fresh, open writer for a run with the given options.
    pub fn new(options: ExtractionOptions) -> (r: OutputWriter)
        ensures
            r.inv(),
            !r.closed,
            r.options == options,
            r.received@ == Seq::<RecModel>::empty(),
    {
        let r = OutputWriter {
            options,
            rows: Vec::new(),
            seen: Vec::new(),
            counts: Counts::zero(),
            closed: false,
            received: Ghost(Seq::empty()),
        };
        proof {
            assert(final_rows(r.received@, true) =~= Seq::<RecModel>::empty());
            assert(rows_model(r.rows@) =~= final_rows(r.received@, options.unique));
            assert(digests_set(r.seen@) =~= hashes_of(r.received@));
        }
        r
    }

    /// Write one batch: under `unique`, rows whose digest was already
    /// persisted are dropped and counted as deduplicated; the rest are
    /// appended and counted as written. Returns how many rows were
    /// persisted, or the writer-closed error after finalization.
    pub fn write_items(&mut self, batch: Batch) -> (r: Result<usize, ExtractError>)
        requires
            old(self).inv(),
            batch.wf(old(self).options),
        ensures
            final(self).inv(),
            old(self).closed ==> r == Err::<usize, ExtractError>(ExtractError::WriterClosed)
                && *final(self) == *old(self),
            !old(self).closed ==> {
                &&& r matches Ok(n) && n == final(self).rows@.len() - old(self).rows@.len()
                &&& !final(self).closed
                &&& final(self).options == old(self).options
                &&& final(self).received@ == old(self).received@ + batch.models()
            },
    {
        if self.closed {
            return Err(ExtractError::WriterClosed);
        }
        let ghost r0 = self.received@;
        let ghost bm = batch.models();
        let mut pending = batch.rows;
        let before = self.rows.len();
        let ghost mut i: int = 0;
        proof {
            assert(rows_model(pending@) =~= bm.skip(0));
            assert(r0 + bm.take(0) =~= r0);
        }
        while pending.len() > 0
            invariant
                0 <= i <= bm.len(),
                pending@.len() == bm.len() - i,
                rows_model(pending@) == bm.skip(i),
                self.received@ == r0 + bm.take(i),
                !self.closed,
                self.options == old(self).options,
                self.inv(),
                self.rows@.len() >= before,
                before == old(self).rows@.len(),
                rows_wf(bm, old(self).options),
                forall|k: int| 0 <= k < bm.len() ==> (#[trigger] bm[k]).hash_len_ok(),
            decreases pending.len(),
        {
            let ghost p0 = pending@;
            let rec = pending.remove(0);
            let ghost rcv = self.received@;
            proof {
                assert(rec == p0[0]);
                assert(rows_model(p0)[0] == rec@);
                assert(rec@ == bm.skip(i)[0]);
                assert(bm.skip(i)[0] == bm[i]);
                assert forall|j: int| 0 <= j < pending@.len() implies rows_model(pending@)[j]
                    == bm.skip(i + 1)[j] by {
                    assert(pending@[j] == p0[j + 1]);
                    assert(rows_model(p0)[j + 1] == bm.skip(i)[j + 1]);
                    assert(bm.skip(i)[j + 1] == bm[i + j + 1]);
                }
                assert(rows_model(pending@) =~= bm.skip(i + 1));
                assert(rcv + seq![rec@] =~= r0 + bm.take(i + 1));
                assert(rcv.push(rec@) =~= rcv + seq![rec@]);
                lemma_dedup_concat(rcv, seq![rec@], Set::empty());
                assert(Set::empty().union(hashes_of(rcv)) =~= hashes_of(rcv));
                lemma_hashes_push(rcv, rec@);
                assert(bm[i].wf(old(self).options));
                assert(bm[i].hash_len_ok());
            }
            if self.options.unique {
                let dup = contains_digest(&self.seen, &rec.hash);
                proof {
                    assert(seq![rec@].drop_first() =~= Seq::<RecModel>::empty());
                    assert(dup == hashes_of(rcv).contains(rec@.hash));
                    assert(dedup_from(Seq::<RecModel>::empty(), hashes_of(rcv))
                        =~= Seq::<RecModel>::empty());
                    assert(dedup_from(
                        Seq::<RecModel>::empty(),
                        hashes_of(rcv).insert(rec@.hash),
                    ) =~= Seq::<RecModel>::empty());
                    if dup {
                        assert(dedup_from(seq![rec@], hashes_of(rcv))
                            =~= Seq::<RecModel>::empty());
                        assert(final_rows(rcv + seq![rec@], true) =~= final_rows(rcv, true));
                    } else {
                        assert(dedup_from(seq![rec@], hashes_of(rcv)) =~= seq![rec@]);
                        assert(final_rows(rcv + seq![rec@], true) =~= final_rows(
                            rcv,
                            true,
                        ).push(rec@));
                    }
                }
                if dup {
                    self.counts.deduplicated = self.counts.deduplicated.saturating_add(1);
                    self.received = Ghost(rcv.push(rec@));
                    proof {
                        lemma_sat_nat_add((rcv.len() - self.rows@.len()) as nat, 1);
                        assert(self.received@ =~= r0 + bm.take(i + 1));
                        assert(hashes_of(rcv).insert(rec@.hash) =~= hashes_of(rcv));
                        i = i + 1;
                    }
                } else {
                    let ghost seen0 = self.seen@;
                    let digest_copy = vstd::slice::slice_to_vec(rec.hash.as_slice());
                    let ghost dc = digest_copy@;
                    proof {
                        lemma_digests_push(seen0, digest_copy);
                    }
                    self.seen.push(digest_copy);
                    let ghost rm0 = rows_model(self.rows@);
                    self.rows.push(rec);
                    self.counts.written = self.counts.written.saturating_add(1);
                    self.received = Ghost(rcv.push(rec@));
                    proof {
                        assert(digests_set(self.seen@) == digests_set(seen0).insert(dc));
                        assert(dc == rec@.hash);
                        assert(rows_model(self.rows@) =~= rm0.push(rec@));
                        lemma_sat_nat_add(rm0.len(), 1);
                        assert(self.received@ =~= r0 + bm.take(i + 1));
                        assert forall|k: int| 0 <= k < rows_model(self.rows@).len() implies
                            (#[trigger] rows_model(self.rows@)[k]).wf(self.options)
                            && rows_model(self.rows@)[k].hash_len_ok() by {
                            if k < rm0.len() {
                                assert(rows_model(self.rows@)[k] == rm0[k]);
                                assert(rm0[k].wf(self.options));
                                assert(rm0[k].hash_len_ok());
                            } else {
                                assert(rows_model(self.rows@)[k] == rec@);
                            }
                        }
                        i = i + 1;
                    }
                }
            } else {
                let ghost rm0 = rows_model(self.rows@);
                self.rows.push(rec);
                self.counts.written = self.counts.written.saturating_add(1);
                self.received = Ghost(rcv.push(rec@));
                proof {
                    assert(rows_model(self.rows@) =~= rm0.push(rec@));
                    lemma_sat_nat_add(rm0.len(), 1);
                    assert(self.received@ =~= r0 + bm.take(i + 1));
                    assert(rows_model(self.rows@) =~= final_rows(self.received@, false));
                    assert forall|k: int| 0 <= k < rows_model(self.rows@).len() implies
                        (#[trigger] rows_model(self.rows@)[k]).wf(self.options)
                        && rows_model(self.rows@)[k].hash_len_ok() by {
                        if k < rm0.len() {
                            assert(rows_model(self.rows@)[k] == rm0[k]);
                            assert(rm0[k].wf(self.options));
                            assert(rm0[k].hash_len_ok());
                        } else {
                            assert(rows_model(self.rows@)[k] == rec@);
                        }
                    }
                    i = i + 1;
                }
            }
        }
        proof {
            assert(bm.take(i) =~= bm);
        }
        Ok(self.rows.len() - before)
    }

    /// With `unique` set, no two rows an open writer holds share a hash:
    /// the persisted rows are a first-occurrence filter, which keeps
    /// pairwise-distinct digests.
    pub proof fn lemma_rows_distinct(self)
        requires
            self.inv(),
            !self.closed,
            self.options.unique,
        ensures
            forall|i: int, j: int|
                0 <= i < j < self.rows@.len() ==> rows_model(self.rows@)[i].hash != rows_model(
                    self.rows@,
                )[j].hash,
    {
        crate::dedup::lemma_dedup_distinct(self.received@, Set::empty());
    }

    /// The writer's own counters: written rows and cross-batch removals.
    pub fn counts(&self) -> (r: Counts)
        requires
            !self.closed,
        ensures
            r == self.counts,
    {
        self.counts
    }

    /// Finalize the writer: hand out the persisted rows exactly once and
    /// close; any later write or finish fails with the writer-closed error.
    pub fn finish(&mut self) -> (r: Result<Vec<Record>, ExtractError>)
        requires
            old(self).inv(),
        ensures
            old(self).closed ==> r == Err::<Vec<Record>, ExtractError>(
                ExtractError::WriterClosed,
            ) && *final(self) == *old(self),
            !old(self).closed ==> final(self).closed && (r matches Ok(v) && (
                v@ == old(self).rows@
                && rows_model(v@) == final_rows(old(self).received@, old(self).options.unique)
                && rows_wf(rows_model(v@), old(self).options)
                && (forall|i: int|
                    0 <= i < v@.len() ==> (#[trigger] rows_model(v@)[i]).hash_len_ok())
            )),
    {
        if self.closed {
            return Err(ExtractError::WriterClosed);
        }
        self.closed = true;
        let mut out: Vec<Record> = Vec::new();
        core::mem::swap(&mut out, &mut self.rows);
        Ok(out)
    }
}

} // verus!
