//! Laws of the traversal model.
//!
//! These proof functions state, over the model of `model` and `dedup`,
//! what holds of every run: the accounting identity between the four
//! counters, well-formedness of every emitted row, the text round trip,
//! that staging deduplication in two scopes changes nothing, and that
//! extracting the same input twice deduplicates to the single run.

use vstd::prelude::*;
use crate::dedup::{
    dedup_from, final_rows, hashes_of, lemma_dedup_all_seen, lemma_dedup_concat,
    lemma_dedup_idempotent, lemma_hashes_contains,
};
use crate::model::{
    classify, items_of, run_container, run_item, run_items, ItemAction, Outcome,
};
use crate::archive::ItemModel;
use crate::formats::ArchiveFormat;
use crate::options::ExtractionOptions;
use crate::record::{rows_wf, RecModel};
use crate::text::spec_join_path;
use vstd::utf8::decode_utf8;

verus! {

/// The counters of a successful traversal balance: every observed entry
/// is either skipped or contributes exactly one emitted row. Together
/// with `final_rows`, which splits the emitted rows into written and
/// deduplicated ones, this is the accounting identity
/// `read == skipped + written + deduplicated` of a clean run.
pub proof fn lemma_container_accounting(
    opts: ExtractionOptions,
    source: Seq<char>,
    fmt: ArchiveFormat,
    data: Seq<u8>,
)
    ensures
        run_container(opts, source, fmt, data) matches Some(o) ==> o.read == o.skipped
            + o.rows.len(),
    decreases opts.depth_budget(), 1nat, 0nat,
{
    match items_of(fmt, data) {
        None => {},
        Some(items) => lemma_items_accounting(opts, source, items),
    }
}

proof fn lemma_item_accounting(opts: ExtractionOptions, source: Seq<char>, item: ItemModel)
    ensures
        run_item(opts, source, item) matches Some(o) ==> o.read == o.skipped + o.rows.len(),
    decreases opts.depth_budget(), 0nat, 0nat,
{
    match classify(opts, item) {
        ItemAction::Recurse(f) => lemma_container_accounting(
            opts.spec_decrement(),
            spec_join_path(source, decode_utf8(item.0)),
            f,
            item.2,
        ),
        _ => {},
    }
}

/// As `lemma_container_accounting`, for one entry list.
pub proof fn lemma_items_accounting(
    opts: ExtractionOptions,
    source: Seq<char>,
    items: Seq<ItemModel>,
)
    ensures
        run_items(opts, source, items) matches Some(o) ==> o.read == o.skipped + o.rows.len(),
    decreases opts.depth_budget(), 0nat, items.len() + 1,
{
    if items.len() > 0 {
        lemma_item_accounting(opts, source, items[0]);
        lemma_items_accounting(opts, source, items.drop_first());
    }
}

/// Every row a traversal emits is well-formed: its size passed the size
/// gate, its hash is the SHA-256 digest of its content, and under text
/// gating its content is valid UTF-8. The gates only read the size
/// bounds and the text flag, which recursion keeps.
pub proof fn lemma_container_rows_wf(
    opts: ExtractionOptions,
    source: Seq<char>,
    fmt: ArchiveFormat,
    data: Seq<u8>,
)
    ensures
        run_container(opts, source, fmt, data) matches Some(o) ==> rows_wf(o.rows, opts),
    decreases opts.depth_budget(), 1nat, 0nat,
{
    match items_of(fmt, data) {
        None => {},
        Some(items) => lemma_items_rows_wf(opts, source, items),
    }
}

proof fn lemma_item_rows_wf(opts: ExtractionOptions, source: Seq<char>, item: ItemModel)
    ensures
        run_item(opts, source, item) matches Some(o) ==> rows_wf(o.rows, opts),
    decreases opts.depth_budget(), 0nat, 0nat,
{
    match classify(opts, item) {
        ItemAction::Recurse(f) => {
            let child = opts.spec_decrement();
            lemma_container_rows_wf(
                child,
                spec_join_path(source, decode_utf8(item.0)),
                f,
                item.2,
            );
            match run_container(child, spec_join_path(source, decode_utf8(item.0)), f, item.2) {
                Some(o) => {
                    assert forall|i: int| 0 <= i < o.rows.len() implies #[trigger] o.rows[i].wf(
                        opts,
                    ) by {
                        assert(o.rows[i].wf(child));
                    }
                },
                None => {},
            }
        },
        _ => {},
    }
}

/// As `lemma_container_rows_wf`, for one entry list.
pub proof fn lemma_items_rows_wf(
    opts: ExtractionOptions,
    source: Seq<char>,
    items: Seq<ItemModel>,
)
    ensures
        run_items(opts, source, items) matches Some(o) ==> rows_wf(o.rows, opts),
    decreases opts.depth_budget(), 0nat, items.len() + 1,
{
    if items.len() > 0 {
        lemma_item_rows_wf(opts, source, items[0]);
        lemma_items_rows_wf(opts, source, items.drop_first());
        match run_items(opts, source, items) {
            Some(o) => {
                let o1 = run_item(opts, source, items[0])->Some_0;
                let o2 = run_items(opts, source, items.drop_first())->Some_0;
                assert forall|i: int| 0 <= i < o.rows.len() implies #[trigger] o.rows[i].wf(
                    opts,
                ) by {
                    if i < o1.rows.len() {
                        assert(o.rows[i] == o1.rows[i]);
                    } else {
                        assert(o.rows[i] == o2.rows[i - o1.rows.len()]);
                    }
                }
            },
            None => {},
        }
    }
}

/// The contents of the entries of a list that pass every gate, in
/// container order.
pub open spec fn kept_contents(opts: ExtractionOptions, items: Seq<ItemModel>) -> Seq<Seq<u8>>
    decreases items.len(),
{
    if items.len() == 0 {
        Seq::empty()
    } else {
        let rest = kept_contents(opts, items.drop_first());
        if classify(opts, items[0]) is Emit {
            seq![items[0].2] + rest
        } else {
            rest
        }
    }
}

/// The contents column of a row sequence, in order.
pub open spec fn contents_of(rows: Seq<RecModel>) -> Seq<Seq<u8>> {
    rows.map_values(|r: RecModel| r.content)
}

/// The round trip: with recursion disabled, a traversal always succeeds
/// and emits, in container order, exactly the bytes of the entries that
/// pass the gates — under `only_text` these are the UTF-8-valid entries,
/// and text decoding is lossless, so concatenating the emitted contents
/// reproduces the concatenation of those entries' bytes.
pub proof fn lemma_round_trip(
    opts: ExtractionOptions,
    source: Seq<char>,
    items: Seq<ItemModel>,
)
    requires
        opts.depth_budget() == 0,
    ensures
        run_items(opts, source, items) matches Some(o) && contents_of(o.rows)
            == kept_contents(opts, items),
    decreases items.len(),
{
    if items.len() == 0 {
        assert(contents_of(out_zero_rows()) =~= kept_contents(opts, items));
    } else {
        lemma_round_trip(opts, source, items.drop_first());
        let o1 = run_item(opts, source, items[0])->Some_0;
        let o2 = run_items(opts, source, items.drop_first())->Some_0;
        assert(run_item(opts, source, items[0]) is Some);
        assert(contents_of(o1.rows + o2.rows) =~= contents_of(o1.rows) + contents_of(o2.rows));
        if classify(opts, items[0]) is Emit {
            assert(contents_of(o1.rows) =~= seq![items[0].2]);
        } else {
            assert(classify(opts, items[0]) is Skip);
            assert(contents_of(o1.rows) =~= Seq::<Seq<u8>>::empty());
        }
    }
}

spec fn out_zero_rows() -> Seq<RecModel> {
    crate::model::out_zero().rows
}

/// Staging changes nothing: filtering a batch within its own scope first
/// and then across batches keeps exactly the rows that a single global
/// filter would keep.
pub proof fn lemma_stages_compose(a: Seq<RecModel>, b: Seq<RecModel>)
    ensures
        dedup_from(a + dedup_from(b, Set::empty()), Set::empty()) == dedup_from(
            a + b,
            Set::empty(),
        ),
{
    lemma_dedup_concat(a, dedup_from(b, Set::empty()), Set::empty());
    lemma_dedup_concat(a, b, Set::empty());
    lemma_dedup_idempotent(b, Set::empty(), Set::empty().union(hashes_of(a)));
}

/// Idempotence: emitting the same stream twice and filtering on hashes
/// yields exactly the rows of the single stream's filter.
pub proof fn lemma_idempotent(stream: Seq<RecModel>)
    ensures
        final_rows(stream + stream, true) == final_rows(stream, true),
{
    lemma_dedup_concat(stream, stream, Set::empty());
    assert forall|i: int| 0 <= i < stream.len() implies Set::empty().union(
        hashes_of(stream),
    ).contains(#[trigger] stream[i].hash) by {
        lemma_hashes_contains(stream, stream[i].hash);
    }
    lemma_dedup_all_seen(stream, Set::empty().union(hashes_of(stream)));
    assert(dedup_from(stream, Set::empty()) + Seq::<RecModel>::empty() =~= dedup_from(
        stream,
        Set::empty(),
    ));
}

} // verus!
