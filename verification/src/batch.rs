//! The batch builder: column-wise accumulation of records up to a row
//! cap, per-row digests, the in-batch deduplication scope, and flushing
//! finalized batches to the output writer.
//!
//! The builder keeps two ghost histories: `chunked`, every row it ever
//! accepted (in order), and `flushed`, what it handed to the writer after
//! in-batch filtering. Its invariant says the two are interchangeable
//! under the run's filter, which is exactly why running the filter in two
//! scopes is sound.

use vstd::prelude::*;
use vstd::utf8::{encode_utf8, encode_utf8_valid_utf8, valid_utf8};
use crate::counts::{lemma_sat_nat_add, sat_nat, Counts};
use crate::dedup::{
    dedup_from, hashes_of, lemma_concat_equiv, lemma_dedup_concat, lemma_dedup_idempotent,
    lemma_dedup_len, lemma_hashes_push, lemma_suffix_equiv, streams_equiv,
};
use crate::digest::{contains_digest, digests_set, lemma_digests_push, sha256, sha256_of};
use crate::options::ExtractionOptions;
use crate::output::{Batch, ExtractError, OutputWriter};
use crate::record::{rows_model, rows_wf, RecModel, Record};

verus! {

/// The rows held by four columns in lockstep, with each row's digest.
pub open spec fn pending_of(
    s: Seq<String>,
    p: Seq<String>,
    z: Seq<u64>,
    c: Seq<Vec<u8>>,
) -> Seq<RecModel> {
    Seq::new(
        s.len(),
        |i: int| RecModel {
            source: s[i]@,
            path: p[i]@,
            size: z[i],
            hash: sha256_of(c[i]@),
            content: c[i]@,
        },
    )
}

/// The batch builder of one extraction task.
pub struct Items {
    pub options: ExtractionOptions,
    pub capacity: usize,
    /// Only `deduplicated` moves: rows removed by the in-batch scope.
    pub counts: Counts,
    pub sources: Vec<String>,
    pub paths: Vec<String>,
    pub sizes: Vec<u64>,
    pub contents: Vec<Vec<u8>>,
    /// Every row ever accepted, in order, before any filtering.
    pub chunked: Ghost<Seq<RecModel>>,
    /// Every row handed to the writer, after in-batch filtering.
    pub flushed: Ghost<Seq<RecModel>>,
}

impl Items {
    /// The rows accumulated since the last flush.
    pub open spec fn pending(self) -> Seq<RecModel> {
        pending_of(self.sources@, self.paths@, self.sizes@, self.contents@)
    }

    /// Every row the builder ever accepted: flushed chunks, then pending.
    pub open spec fn emitted(self) -> Seq<RecModel> {
        self.chunked@ + self.pending()
    }

    /// The builder's invariant: columns in lockstep, pending rows
    /// well-formed, the flushed rows interchangeable with the accepted
    /// ones under the run's filter, and the in-batch removal counter
    /// exact (clamped at `usize::MAX`).
    pub open spec fn inv(self) -> bool {
        &&& self.paths@.len() == self.sources@.len()
        &&& self.sizes@.len() == self.sources@.len()
        &&& self.contents@.len() == self.sources@.len()
        &&& rows_wf(self.pending(), self.options)
        &&& streams_equiv(self.flushed@, self.chunked@, self.options.unique)
        &&& self.flushed@.len() <= self.chunked@.len()
        &&& self.counts == (Counts {
            read: 0,
            skipped: 0,
            deduplicated: sat_nat((self.chunked@.len() - self.flushed@.len()) as nat),
            written: 0,
        })
    }

    /// A fresh builder that will flush whenever `capacity` rows are
    /// pending.
    pub fn new_with_capacity(capacity: usize, options: ExtractionOptions) -> (r: Items)
        ensures
            r.inv(),
            r.options == options,
            r.capacity == capacity,
            r.emitted() == Seq::<RecModel>::empty(),
            r.flushed@ == Seq::<RecModel>::empty(),
            r.counts == Counts::spec_zero(),
    {
        let r = Items {
            options,
            capacity,
            counts: Counts::zero(),
            sources: Vec::new(),
            paths: Vec::new(),
            sizes: Vec::new(),
            contents: Vec::new(),
            chunked: Ghost(Seq::empty()),
            flushed: Ghost(Seq::empty()),
        };
        proof {
            assert(r.pending() =~= Seq::<RecModel>::empty());
            assert(r.emitted() =~= Seq::<RecModel>::empty());
            assert(dedup_from(r.flushed@, Set::empty()) =~= dedup_from(
                r.chunked@,
                Set::empty(),
            ));
        }
        r
    }

    /// The builder's counters (only in-batch removals move).
    pub fn counts(&self) -> (r: Counts)
        ensures
            r == self.counts,
    {
        self.counts
    }

    /// Append one binary record. Flushes when the row cap is reached.
    pub fn add_record(
        &mut self,
        out: &mut OutputWriter,
        source: &str,
        path: &str,
        size: u64,
        data: Vec<u8>,
        base: Ghost<Seq<RecModel>>,
    ) -> (r: Result<(), ExtractError>)
        requires
            synced(*old(self), *old(out), base@),
            !old(self).options.only_text,
            old(self).options.spec_size_ok(size),
        ensures
            r is Ok,
            synced(*final(self), *final(out), base@),
            final(self).options == old(self).options,
            final(self).capacity == old(self).capacity,
            final(self).emitted() == old(self).emitted().push(
                RecModel {
                    source: source@,
                    path: path@,
                    size,
                    hash: sha256_of(data@),
                    content: data@,
                },
            ),
    {
        let ghost row = RecModel {
            source: source@,
            path: path@,
            size,
            hash: sha256_of(data@),
            content: data@,
        };
        self.sources.push(source.to_owned());
        self.paths.push(path.to_owned());
        self.sizes.push(size);
        self.contents.push(data);
        proof {
            assert(self.pending() =~= old(self).pending().push(row));
            assert(self.emitted() =~= old(self).emitted().push(row));
            assert(row.wf(self.options));
            assert forall|i: int| 0 <= i < self.pending().len() implies (
                #[trigger] self.pending()[i]).wf(self.options) by {
                if i < old(self).pending().len() {
                    assert(self.pending()[i] == old(self).pending()[i]);
                } else {
                    assert(self.pending()[i] == row);
                }
            }
        }
        if self.sources.len() >= self.capacity {
            self.flush(out, base)
        } else {
            Ok(())
        }
    }

    /// Append one text record: the content column holds the UTF-8 bytes
    /// of the decoded text. Flushes when the row cap is reached.
    pub fn add_text_record(
        &mut self,
        out: &mut OutputWriter,
        source: &str,
        path: &str,
        size: u64,
        data: &str,
        base: Ghost<Seq<RecModel>>,
    ) -> (r: Result<(), ExtractError>)
        requires
            synced(*old(self), *old(out), base@),
            old(self).options.only_text,
            old(self).options.spec_size_ok(size),
        ensures
            r is Ok,
            synced(*final(self), *final(out), base@),
            final(self).options == old(self).options,
            final(self).capacity == old(self).capacity,
            final(self).emitted() == old(self).emitted().push(
                RecModel {
                    source: source@,
                    path: path@,
                    size,
                    hash: sha256_of(encode_utf8(data@)),
                    content: encode_utf8(data@),
                },
            ),
    {
        let ghost row = RecModel {
            source: source@,
            path: path@,
            size,
            hash: sha256_of(encode_utf8(data@)),
            content: encode_utf8(data@),
        };
        self.sources.push(source.to_owned());
        self.paths.push(path.to_owned());
        self.sizes.push(size);
        let content = data.as_bytes_vec();
        self.contents.push(content);
        proof {
            encode_utf8_valid_utf8(data@);
            assert(self.pending() =~= old(self).pending().push(row));
            assert(self.emitted() =~= old(self).emitted().push(row));
            assert(row.wf(self.options));
            assert forall|i: int| 0 <= i < self.pending().len() implies (
                #[trigger] self.pending()[i]).wf(self.options) by {
                if i < old(self).pending().len() {
                    assert(self.pending()[i] == old(self).pending()[i]);
                } else {
                    assert(self.pending()[i] == row);
                }
            }
        }
        if self.sources.len() >= self.capacity {
            self.flush(out, base)
        } else {
            Ok(())
        }
    }

    /// Finalize the pending rows into a batch — computing each row's
    /// digest and, under `unique`, dropping rows whose digest repeats
    /// within the batch (first occurrence kept) — and hand the batch to
    /// the writer. Resets the builder's columns.
    pub fn flush(&mut self, out: &mut OutputWriter, base: Ghost<Seq<RecModel>>) -> (r: Result<
        (),
        ExtractError,
    >)
        requires
            synced(*old(self), *old(out), base@),
        ensures
            r is Ok,
            synced(*final(self), *final(out), base@),
            final(self).options == old(self).options,
            final(self).capacity == old(self).capacity,
            final(self).emitted() == old(self).emitted(),
            final(self).pending() == Seq::<RecModel>::empty(),
    {
        if self.sources.is_empty() {
            proof {
                assert(self.pending() =~= Seq::<RecModel>::empty());
            }
            return Ok(());
        }
        let ghost pm = self.pending();
        let ghost ch0 = self.chunked@;
        let ghost fl0 = self.flushed@;
        let unique = self.options.unique;

        let mut sources: Vec<String> = Vec::new();
        let mut paths: Vec<String> = Vec::new();
        let mut sizes: Vec<u64> = Vec::new();
        let mut contents: Vec<Vec<u8>> = Vec::new();
        core::mem::swap(&mut sources, &mut self.sources);
        core::mem::swap(&mut paths, &mut self.paths);
        core::mem::swap(&mut sizes, &mut self.sizes);
        core::mem::swap(&mut contents, &mut self.contents);

        let mut rows: Vec<Record> = Vec::new();
        let mut seen: Vec<Vec<u8>> = Vec::new();
        let mut removed: usize = 0;
        let ghost mut i: int = 0;
        let row_total = sources.len();
        proof {
            assert(row_total == pm.len());
            assert(pending_of(sources@, paths@, sizes@, contents@) == pm);
            assert(pm.take(0) =~= Seq::<RecModel>::empty());
            assert(rows_model(rows@) =~= dedup_from(pm.take(0), Set::empty()));
            assert(rows_model(rows@) =~= pm.take(0));
            assert(digests_set(seen@) =~= hashes_of(pm.take(0)));
        }
        while sources.len() > 0
            invariant
                pm.len() == row_total,
                0 <= i <= pm.len(),
                sources@.len() == pm.len() - i,
                paths@.len() == sources@.len(),
                sizes@.len() == sources@.len(),
                contents@.len() == sources@.len(),
                pending_of(sources@, paths@, sizes@, contents@) == pm.skip(i),
                rows_wf(pm, self.options),
                unique ==> rows_model(rows@) == dedup_from(pm.take(i), Set::empty()),
                unique ==> digests_set(seen@) == hashes_of(pm.take(i)),
                unique ==> removed == i - rows@.len(),
                !unique ==> rows_model(rows@) == pm.take(i) && removed == 0,
                rows@.len() <= i,
                rows_wf(rows_model(rows@), self.options),
                forall|k: int|
                    0 <= k < rows@.len() ==> (#[trigger] rows_model(rows@)[k]).hash_len_ok(),
                unique == self.options.unique,
            decreases sources.len(),
        {
            let ghost s0 = sources@;
            let ghost p0 = paths@;
            let ghost z0 = sizes@;
            let ghost c0 = contents@;
            let source = sources.remove(0);
            let path = paths.remove(0);
            let size = sizes.remove(0);
            let content = contents.remove(0);
            let digest = sha256(content.as_slice());
            proof {
                assert(pending_of(s0, p0, z0, c0)[0] == pm.skip(i)[0]);
                assert(pm.skip(i)[0] == pm[i]);
                assert forall|j: int| 0 <= j < sources@.len() implies #[trigger] pending_of(
                    sources@,
                    paths@,
                    sizes@,
                    contents@,
                )[j] == pm.skip(i + 1)[j] by {
                    assert(pending_of(sources@, paths@, sizes@, contents@)[j] == pending_of(
                        s0,
                        p0,
                        z0,
                        c0,
                    )[j + 1]);
                    assert(pending_of(s0, p0, z0, c0)[j + 1] == pm.skip(i)[j + 1]);
                }
                assert(pending_of(sources@, paths@, sizes@, contents@) =~= pm.skip(i + 1));
                assert(digest@ == pm[i].hash);
                assert(pm.take(i + 1) =~= pm.take(i) + seq![pm[i]]);
                lemma_dedup_concat(pm.take(i), seq![pm[i]], Set::empty());
                assert(Set::empty().union(hashes_of(pm.take(i))) =~= hashes_of(pm.take(i)));
                lemma_hashes_push(pm.take(i), pm[i]);
                assert(pm.take(i).push(pm[i]) =~= pm.take(i + 1));
                assert(seq![pm[i]].drop_first() =~= Seq::<RecModel>::empty());
                assert(dedup_from(Seq::<RecModel>::empty(), hashes_of(pm.take(i)))
                    =~= Seq::<RecModel>::empty());
                assert(dedup_from(
                    Seq::<RecModel>::empty(),
                    hashes_of(pm.take(i)).insert(pm[i].hash),
                ) =~= Seq::<RecModel>::empty());
                assert(pm[i].wf(self.options));
            }
            let rec = Record { source, path, size, hash: digest, content };
            proof {
                assert(rec@ == pm[i]);
            }
            if unique {
                let dup = contains_digest(&seen, &rec.hash);
                if dup {
                    removed = removed + 1;
                    proof {
                        assert(hashes_of(pm.take(i)).contains(pm[i].hash));
                        assert(dedup_from(seq![pm[i]], hashes_of(pm.take(i)))
                            =~= Seq::<RecModel>::empty());
                        assert(rows_model(rows@) + Seq::<RecModel>::empty() =~= rows_model(
                            rows@,
                        ));
                        assert(hashes_of(pm.take(i)).insert(pm[i].hash) =~= hashes_of(
                            pm.take(i),
                        ));
                        i = i + 1;
                    }
                } else {
                    let ghost seen0 = seen@;
                    let ghost rows0 = rows@;
                    let digest_copy = vstd::slice::slice_to_vec(rec.hash.as_slice());
                    proof {
                        lemma_digests_push(seen0, digest_copy);
                    }
                    seen.push(digest_copy);
                    rows.push(rec);
                    proof {
                        assert(!hashes_of(pm.take(i)).contains(pm[i].hash));
                        assert(dedup_from(seq![pm[i]], hashes_of(pm.take(i))) =~= seq![pm[i]]);
                        assert(rows_model(rows@) =~= rows_model(rows0).push(pm[i]));
                        assert(rows_model(rows@) =~= dedup_from(pm.take(i + 1), Set::empty()));
                        assert forall|k: int| 0 <= k < rows@.len() implies (
                            #[trigger] rows_model(rows@)[k]).wf(self.options) && rows_model(
                            rows@,
                        )[k].hash_len_ok() by {
                            if k < rows0.len() {
                                assert(rows_model(rows@)[k] == rows_model(rows0)[k]);
                            } else {
                                assert(rows_model(rows@)[k] == pm[i]);
                            }
                        }
                        i = i + 1;
                    }
                }
            } else {
                let ghost rows0 = rows@;
                rows.push(rec);
                proof {
                    assert(rows_model(rows@) =~= rows_model(rows0).push(pm[i]));
                    assert(rows_model(rows@) =~= pm.take(i + 1));
                    assert forall|k: int| 0 <= k < rows@.len() implies (
                        #[trigger] rows_model(rows@)[k]).wf(self.options) && rows_model(
                        rows@,
                    )[k].hash_len_ok() by {
                        if k < rows0.len() {
                            assert(rows_model(rows@)[k] == rows_model(rows0)[k]);
                        } else {
                            assert(rows_model(rows@)[k] == pm[i]);
                        }
                    }
                    i = i + 1;
                }
            }
        }
        proof {
            assert(pm.take(i) =~= pm);
        }
        let batch = Batch { rows };
        let ghost batch_m = batch.models();
        proof {
            if unique {
                lemma_dedup_len(pm, Set::empty());
            }
            assert(removed == pm.len() - batch_m.len());
        }
        self.chunked = Ghost(ch0 + pm);
        self.flushed = Ghost(fl0 + batch_m);
        self.counts.deduplicated = self.counts.deduplicated.saturating_add(removed);
        proof {
            lemma_sat_nat_add((ch0.len() - fl0.len()) as nat, removed);
            if unique {
                lemma_concat_equiv(fl0, ch0, batch_m);
                lemma_dedup_idempotent(pm, Set::empty(), Set::empty());
                lemma_suffix_equiv(ch0, batch_m, pm);
            }
            assert(self.pending() =~= Seq::<RecModel>::empty());
            assert(self.emitted() =~= ch0 + pm);
            assert(old(self).emitted() == ch0 + pm);
        }
        let wr = out.write_items(batch);
        proof {
            assert(out.received@ =~= base@ + (fl0 + batch_m));
        }
        match wr {
            Ok(_) => Ok(()),
            Err(e) => Err(e),
        }
    }
}

/// A builder and the writer it feeds stand in step: the writer's received
/// stream is what it had when the builder was created (`base`) followed by
/// everything the builder flushed, both sides are internally consistent,
/// the writer is open, and both run under the same options.
pub open spec fn synced(items: Items, out: OutputWriter, base: Seq<RecModel>) -> bool {
    &&& items.inv()
    &&& out.inv()
    &&& !out.closed
    &&& items.options == out.options
    &&& out.received@ == base + items.flushed@
}

} // verus!
