//! First-occurrence filtering by content digest.
//!
//! Both deduplication stages — within one batch and across batches — keep
//! the first row that carries a given hash and drop every later one. This
//! module defines that filter once, as `dedup_from`, and proves the facts
//! the two stages and the library's laws rest on: how the filter splits
//! over concatenation, that applying it twice changes nothing, that it
//! keeps pairwise-distinct hashes, and that it preserves row
//! well-formedness.

use vstd::prelude::*;
use crate::options::ExtractionOptions;
use crate::record::{rows_wf, RecModel};

verus! {

/// The set of hashes appearing on a row sequence.
pub open spec fn hashes_of(rows: Seq<RecModel>) -> Set<Seq<u8>>
    decreases rows.len(),
{
    if rows.len() == 0 {
        Set::empty()
    } else {
        hashes_of(rows.drop_first()).insert(rows[0].hash)
    }
}

/// A hash is in `hashes_of(rows)` exactly when some row carries it.
pub proof fn lemma_hashes_contains(rows: Seq<RecModel>, h: Seq<u8>)
    ensures
        hashes_of(rows).contains(h) <==> exists|i: int|
            0 <= i < rows.len() && rows[i].hash == h,
    decreases rows.len(),
{
    if rows.len() > 0 {
        lemma_hashes_contains(rows.drop_first(), h);
        if hashes_of(rows).contains(h) {
            if rows[0].hash == h {
                assert(rows[0].hash == h && 0 < rows.len());
            } else {
                let j = choose|j: int|
                    0 <= j < rows.drop_first().len() && rows.drop_first()[j].hash == h;
                assert(rows[j + 1].hash == h);
            }
        }
        if exists|i: int| 0 <= i < rows.len() && rows[i].hash == h {
            let i = choose|i: int| 0 <= i < rows.len() && rows[i].hash == h;
            if i > 0 {
                assert(rows.drop_first()[i - 1].hash == h);
            }
        }
    }
}

/// Appending one row adds exactly its hash to the hash set.
pub proof fn lemma_hashes_push(rows: Seq<RecModel>, r: RecModel)
    ensures
        hashes_of(rows.push(r)) == hashes_of(rows).insert(r.hash),
    decreases rows.len(),
{
    if rows.len() == 0 {
        assert(rows.push(r).drop_first() =~= rows);
        assert(hashes_of(rows.push(r)) =~= hashes_of(rows).insert(r.hash));
    } else {
        assert(rows.push(r).drop_first() =~= rows.drop_first().push(r));
        lemma_hashes_push(rows.drop_first(), r);
        assert(hashes_of(rows.push(r)) =~= hashes_of(rows).insert(r.hash));
    }
}

/// The first-occurrence filter: a row is kept exactly when its hash is
/// neither in `seen` nor carried by an earlier row of the sequence.
pub open spec fn dedup_from(rows: Seq<RecModel>, seen: Set<Seq<u8>>) -> Seq<RecModel>
    decreases rows.len(),
{
    if rows.len() == 0 {
        Seq::empty()
    } else if seen.contains(rows[0].hash) {
        dedup_from(rows.drop_first(), seen)
    } else {
        seq![rows[0]] + dedup_from(rows.drop_first(), seen.insert(rows[0].hash))
    }
}

/// What a run persists of the stream of emitted rows: the stream itself,
/// or its first-occurrence filter when `unique` is set.
pub open spec fn final_rows(stream: Seq<RecModel>, unique: bool) -> Seq<RecModel> {
    if unique {
        dedup_from(stream, Set::empty())
    } else {
        stream
    }
}

/// The filter never keeps more rows than it was given.
pub proof fn lemma_dedup_len(rows: Seq<RecModel>, seen: Set<Seq<u8>>)
    ensures
        dedup_from(rows, seen).len() <= rows.len(),
    decreases rows.len(),
{
    if rows.len() > 0 {
        if seen.contains(rows[0].hash) {
            lemma_dedup_len(rows.drop_first(), seen);
        } else {
            lemma_dedup_len(rows.drop_first(), seen.insert(rows[0].hash));
        }
    }
}

/// The hashes of a filtered sequence, together with the starting
/// seen-set, are the hashes of the original sequence with that seen-set:
/// the filter drops rows, never hashes.
pub proof fn lemma_dedup_hashes(rows: Seq<RecModel>, seen: Set<Seq<u8>>)
    ensures
        hashes_of(dedup_from(rows, seen)).union(seen) == hashes_of(rows).union(seen),
    decreases rows.len(),
{
    if rows.len() == 0 {
        assert(hashes_of(dedup_from(rows, seen)).union(seen) =~= hashes_of(rows).union(seen));
    } else {
        let r = rows[0];
        if seen.contains(r.hash) {
            lemma_dedup_hashes(rows.drop_first(), seen);
            assert(dedup_from(rows, seen) == dedup_from(rows.drop_first(), seen));
            assert(hashes_of(rows) == hashes_of(rows.drop_first()).insert(r.hash));
            assert(hashes_of(dedup_from(rows, seen)).union(seen) =~= hashes_of(rows).union(
                seen,
            ));
        } else {
            lemma_dedup_hashes(rows.drop_first(), seen.insert(r.hash));
            let d = dedup_from(rows.drop_first(), seen.insert(r.hash));
            assert(dedup_from(rows, seen).drop_first() =~= d);
            assert(dedup_from(rows, seen)[0] == r);
            assert(hashes_of(dedup_from(rows, seen)) == hashes_of(d).insert(r.hash));
            assert(hashes_of(rows) == hashes_of(rows.drop_first()).insert(r.hash));
            assert(hashes_of(d).insert(r.hash).union(seen) =~= hashes_of(d).union(
                seen.insert(r.hash),
            ));
            assert(hashes_of(rows.drop_first()).insert(r.hash).union(seen) =~= hashes_of(
                rows.drop_first(),
            ).union(seen.insert(r.hash)));
            assert(hashes_of(dedup_from(rows, seen)).union(seen) =~= hashes_of(rows).union(
                seen,
            ));
        }
    }
}

/// Filtering a concatenation is filtering the first part, then the second
/// under the seen-set grown by every hash of the first part.
pub proof fn lemma_dedup_concat(a: Seq<RecModel>, b: Seq<RecModel>, seen: Set<Seq<u8>>)
    ensures
        dedup_from(a + b, seen) == dedup_from(a, seen) + dedup_from(
            b,
            seen.union(hashes_of(a)),
        ),
    decreases a.len(),
{
    if a.len() == 0 {
        assert(a + b =~= b);
        assert(seen.union(hashes_of(a)) =~= seen);
        assert(dedup_from(a, seen) + dedup_from(b, seen) =~= dedup_from(b, seen));
    } else {
        let r = a[0];
        assert((a + b)[0] == r);
        assert((a + b).drop_first() =~= a.drop_first() + b);
        if seen.contains(r.hash) {
            lemma_dedup_concat(a.drop_first(), b, seen);
            assert(seen.union(hashes_of(a.drop_first())) =~= seen.union(hashes_of(a)));
        } else {
            lemma_dedup_concat(a.drop_first(), b, seen.insert(r.hash));
            assert(seen.insert(r.hash).union(hashes_of(a.drop_first())) =~= seen.union(
                hashes_of(a),
            ));
            assert(seq![r] + (dedup_from(a.drop_first(), seen.insert(r.hash)) + dedup_from(
                b,
                seen.union(hashes_of(a)),
            )) =~= (seq![r] + dedup_from(a.drop_first(), seen.insert(r.hash))) + dedup_from(
                b,
                seen.union(hashes_of(a)),
            ));
        }
    }
}

/// Rows whose hashes are all already seen are all dropped.
pub proof fn lemma_dedup_all_seen(rows: Seq<RecModel>, seen: Set<Seq<u8>>)
    requires
        forall|i: int| 0 <= i < rows.len() ==> seen.contains(#[trigger] rows[i].hash),
    ensures
        dedup_from(rows, seen) == Seq::<RecModel>::empty(),
    decreases rows.len(),
{
    if rows.len() > 0 {
        assert(forall|i: int|
            0 <= i < rows.drop_first().len() ==> seen.contains(
                #[trigger] rows.drop_first()[i].hash,
            ));
        lemma_dedup_all_seen(rows.drop_first(), seen);
    }
}

/// Filtering an already-filtered sequence under a larger seen-set is the
/// same as filtering the original under that seen-set: the first stage of
/// deduplication never changes what the second stage produces.
pub proof fn lemma_dedup_idempotent(rows: Seq<RecModel>, s0: Set<Seq<u8>>, seen: Set<Seq<u8>>)
    requires
        s0.subset_of(seen),
    ensures
        dedup_from(dedup_from(rows, s0), seen) == dedup_from(rows, seen),
    decreases rows.len(),
{
    if rows.len() > 0 {
        let r = rows[0];
        if s0.contains(r.hash) {
            lemma_dedup_idempotent(rows.drop_first(), s0, seen);
        } else {
            let inner = dedup_from(rows.drop_first(), s0.insert(r.hash));
            assert((seq![r] + inner)[0] == r);
            assert((seq![r] + inner).drop_first() =~= inner);
            if seen.contains(r.hash) {
                lemma_dedup_idempotent(rows.drop_first(), s0.insert(r.hash), seen);
            } else {
                lemma_dedup_idempotent(rows.drop_first(), s0.insert(r.hash), seen.insert(r.hash));
            }
        }
    }
}

/// Two streams are interchangeable for a run: equal outright, or, under
/// `unique`, kept identical by the first-occurrence filter.
pub open spec fn streams_equiv(a: Seq<RecModel>, b: Seq<RecModel>, unique: bool) -> bool {
    if unique {
        dedup_from(a, Set::empty()) == dedup_from(b, Set::empty())
    } else {
        a == b
    }
}

/// Replacing a stream's prefix by a filter-equivalent one leaves the
/// filter of the whole stream unchanged.
pub proof fn lemma_concat_equiv(a1: Seq<RecModel>, a2: Seq<RecModel>, b: Seq<RecModel>)
    requires
        dedup_from(a1, Set::empty()) == dedup_from(a2, Set::empty()),
    ensures
        dedup_from(a1 + b, Set::empty()) == dedup_from(a2 + b, Set::empty()),
{
    lemma_dedup_concat(a1, b, Set::empty());
    lemma_dedup_concat(a2, b, Set::empty());
    lemma_dedup_hashes(a1, Set::empty());
    lemma_dedup_hashes(a2, Set::empty());
    assert(hashes_of(dedup_from(a1, Set::empty())).union(Set::empty()) =~= hashes_of(
        dedup_from(a1, Set::empty()),
    ));
    assert(hashes_of(dedup_from(a2, Set::empty())).union(Set::empty()) =~= hashes_of(
        dedup_from(a2, Set::empty()),
    ));
    assert(hashes_of(a1).union(Set::empty()) =~= hashes_of(a1));
    assert(hashes_of(a2).union(Set::empty()) =~= hashes_of(a2));
    assert(Set::empty().union(hashes_of(a1)) =~= hashes_of(a1));
    assert(Set::empty().union(hashes_of(a2)) =~= hashes_of(a2));
}

/// Replacing a stream's suffix by a filter-equivalent one leaves the
/// filter of the whole stream unchanged.
pub proof fn lemma_suffix_equiv(a: Seq<RecModel>, b1: Seq<RecModel>, b2: Seq<RecModel>)
    requires
        dedup_from(b1, Set::empty()) == dedup_from(b2, Set::empty()),
    ensures
        dedup_from(a + b1, Set::empty()) == dedup_from(a + b2, Set::empty()),
{
    lemma_dedup_concat(a, b1, Set::empty());
    lemma_dedup_concat(a, b2, Set::empty());
    lemma_dedup_idempotent(b1, Set::empty(), Set::empty().union(hashes_of(a)));
    lemma_dedup_idempotent(b2, Set::empty(), Set::empty().union(hashes_of(a)));
}

/// The filter's output carries pairwise-distinct hashes, none of them in
/// the starting seen-set.
pub proof fn lemma_dedup_distinct(rows: Seq<RecModel>, seen: Set<Seq<u8>>)
    ensures
        forall|i: int, j: int|
            0 <= i < j < dedup_from(rows, seen).len() ==> #[trigger] dedup_from(rows, seen)[i].hash
                != #[trigger] dedup_from(rows, seen)[j].hash,
        forall|i: int|
            0 <= i < dedup_from(rows, seen).len() ==> !seen.contains(
                #[trigger] dedup_from(rows, seen)[i].hash,
            ),
    decreases rows.len(),
{
    if rows.len() == 0 {
        assert(dedup_from(rows, seen) =~= Seq::<RecModel>::empty());
    } else {
        let r = rows[0];
        if seen.contains(r.hash) {
            lemma_dedup_distinct(rows.drop_first(), seen);
            assert(dedup_from(rows, seen) == dedup_from(rows.drop_first(), seen));
        } else {
            lemma_dedup_distinct(rows.drop_first(), seen.insert(r.hash));
            let d = dedup_from(rows.drop_first(), seen.insert(r.hash));
            let whole = dedup_from(rows, seen);
            assert(whole =~= seq![r] + d);
            assert(forall|k: int| 1 <= k < whole.len() ==> whole[k] == d[k - 1]);
            assert forall|i: int| 0 <= i < whole.len() implies !seen.contains(
                whole[i].hash,
            ) by {
                if i > 0 {
                    assert(whole[i] == d[i - 1]);
                    assert(!seen.insert(r.hash).contains(d[i - 1].hash));
                }
            }
            assert forall|i: int, j: int| 0 <= i < j < whole.len() implies whole[i].hash
                != whole[j].hash by {
                assert(whole[j] == d[j - 1]);
                assert(!seen.insert(r.hash).contains(d[j - 1].hash));
                if i > 0 {
                    assert(whole[i] == d[i - 1]);
                }
            }
        }
    }
}

/// The filter keeps only rows of its input, so row well-formedness is
/// preserved.
pub proof fn lemma_dedup_wf(rows: Seq<RecModel>, seen: Set<Seq<u8>>, opts: ExtractionOptions)
    requires
        rows_wf(rows, opts),
    ensures
        rows_wf(dedup_from(rows, seen), opts),
    decreases rows.len(),
{
    if rows.len() > 0 {
        let r = rows[0];
        assert(forall|i: int|
            0 <= i < rows.drop_first().len() ==> #[trigger] rows.drop_first()[i].wf(opts));
        if seen.contains(r.hash) {
            lemma_dedup_wf(rows.drop_first(), seen, opts);
        } else {
            lemma_dedup_wf(rows.drop_first(), seen.insert(r.hash), opts);
            let d = dedup_from(rows.drop_first(), seen.insert(r.hash));
            let whole = dedup_from(rows, seen);
            assert(r.wf(opts));
            assert(forall|k: int| 1 <= k < whole.len() ==> whole[k] == d[k - 1]);
        }
    }
}

} // verus!
