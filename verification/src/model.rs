//! The mathematical model of a traversal.
//!
//! `run_container` says, as a pure function of a container's bytes (through
//! the named entry lists of `archive`), which rows the traversal emits, in
//! which order, and how its `read` and `skipped` counters move. The
//! executable traversal in `extract` is proved to produce exactly this,
//! and the library's laws are proved of it.

use vstd::prelude::*;
use vstd::utf8::{decode_utf8, valid_utf8};
use crate::archive::{gunzip_of, tar_items_of, zip_items_of, ItemModel};
use crate::digest::sha256_of;
use crate::formats::{spec_detect, ArchiveFormat};
use crate::options::ExtractionOptions;
use crate::record::{rows_wf, RecModel};
use crate::text::spec_join_path;

verus! {

/// What one traversal produced: the emitted rows in order, the number of
/// entries observed, and how many of those were filtered out.
#[verifier::ext_equal]
pub ghost struct Outcome {
    pub rows: Seq<RecModel>,
    pub read: nat,
    pub skipped: nat,
}

/// The outcome of an empty traversal.
pub open spec fn out_zero() -> Outcome {
    Outcome { rows: Seq::empty(), read: 0, skipped: 0 }
}

/// Two traversal parts in sequence: rows concatenate, counters add.
pub open spec fn out_add(a: Outcome, b: Outcome) -> Outcome {
    Outcome {
        rows: a.rows + b.rows,
        read: a.read + b.read,
        skipped: a.skipped + b.skipped,
    }
}

/// Outcome combination is associative.
pub proof fn lemma_out_add_assoc(a: Outcome, b: Outcome, c: Outcome)
    ensures
        out_add(out_add(a, b), c) == out_add(a, out_add(b, c)),
{
    assert((a.rows + b.rows) + c.rows =~= a.rows + (b.rows + c.rows));
}

/// The decision the entry processor takes for one listed entry.
pub ghost enum ItemAction {
    /// Count the entry as read and skipped; emit nothing.
    Skip,
    /// Descend into the entry as a nested archive of the given format.
    Recurse(ArchiveFormat),
    /// Emit one record for the entry.
    Emit,
}

/// The text gate: with `only_text` set, an entry whose content is not
/// valid UTF-8 is skipped; otherwise it is emitted.
pub open spec fn classify_content(opts: ExtractionOptions, item: ItemModel) -> ItemAction {
    if opts.only_text && !valid_utf8(item.2) {
        ItemAction::Skip
    } else {
        ItemAction::Emit
    }
}

/// The per-entry policy, in the order the processor applies it: non-regular
/// entries, entries with non-UTF-8 paths and entries outside the size gate
/// are skipped; then, while recursion budget remains, an entry whose
/// content is detected as an archive is descended into (a failed detection
/// falls through to ordinary emission); finally the text gate decides.
pub open spec fn classify(opts: ExtractionOptions, item: ItemModel) -> ItemAction {
    if !item.3 {
        ItemAction::Skip
    } else if !valid_utf8(item.0) {
        ItemAction::Skip
    } else if !opts.spec_size_ok(item.1) {
        ItemAction::Skip
    } else if opts.depth_budget() >= 1 {
        match spec_detect(item.2, opts.min_file_size) {
            Ok(f) => ItemAction::Recurse(f),
            Err(_) => classify_content(opts, item),
        }
    } else {
        classify_content(opts, item)
    }
}

/// The row emitted for one entry of the container labelled `source`.
pub open spec fn emitted_row(source: Seq<char>, item: ItemModel) -> RecModel {
    RecModel {
        source: source,
        path: decode_utf8(item.0),
        size: item.1,
        hash: sha256_of(item.2),
        content: item.2,
    }
}

/// The entry list of a container of format `fmt` held in `data`: tar
/// entries, tar entries of the gzip decompression, or zip entries.
pub open spec fn items_of(fmt: ArchiveFormat, data: Seq<u8>) -> Option<Seq<ItemModel>> {
    match fmt {
        ArchiveFormat::Tar => tar_items_of(data),
        ArchiveFormat::TarGz => match gunzip_of(data) {
            None => None,
            Some(d) => tar_items_of(d),
        },
        ArchiveFormat::Zip => zip_items_of(data),
    }
}

/// Everything one container contributes to the run: its entry list is
/// taken apart entry by entry under `run_items`. `None` means the
/// traversal fails (a malformed container).
pub open spec fn run_container(
    opts: ExtractionOptions,
    source: Seq<char>,
    fmt: ArchiveFormat,
    data: Seq<u8>,
) -> Option<Outcome>
    decreases opts.depth_budget(), 1nat, 0nat,
{
    match items_of(fmt, data) {
        None => None,
        Some(items) => run_items(opts, source, items),
    }
}

/// The traversal of one entry: skipped, emitted, or replaced by the whole
/// outcome of the nested container it holds, under a source label extended
/// by the entry's path and a recursion budget one smaller.
pub open spec fn run_item(
    opts: ExtractionOptions,
    source: Seq<char>,
    item: ItemModel,
) -> Option<Outcome>
    decreases opts.depth_budget(), 0nat, 0nat,
{
    match classify(opts, item) {
        ItemAction::Skip => Some(Outcome { rows: Seq::empty(), read: 1, skipped: 1 }),
        ItemAction::Emit => Some(
            Outcome { rows: seq![emitted_row(source, item)], read: 1, skipped: 0 },
        ),
        ItemAction::Recurse(f) => run_container(
            opts.spec_decrement(),
            spec_join_path(source, decode_utf8(item.0)),
            f,
            item.2,
        ),
    }
}

/// The traversal of an entry list, front to back; any failing entry fails
/// the whole list.
pub open spec fn run_items(
    opts: ExtractionOptions,
    source: Seq<char>,
    items: Seq<ItemModel>,
) -> Option<Outcome>
    decreases opts.depth_budget(), 0nat, items.len() + 1,
{
    if items.len() == 0 {
        Some(out_zero())
    } else {
        match run_item(opts, source, items[0]) {
            None => None,
            Some(o1) => match run_items(opts, source, items.drop_first()) {
                None => None,
                Some(o2) => Some(out_add(o1, o2)),
            },
        }
    }
}

} // verus!
