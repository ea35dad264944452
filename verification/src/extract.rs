//! The traversal: streaming a container's entries through the per-entry
//! policy into the batch builder, with bounded recursive descent into
//! nested archives.
//!
//! Each function is proved to produce exactly what the corresponding
//! model function of `model` says: the same emitted rows appended to the
//! builder, and counters that are the clamped images of the model's exact
//! counters.

use vstd::prelude::*;
use vstd::utf8::{decode_utf8, valid_utf8};
use crate::archive::{gunzip, items_model, tar_list, zip_list, ArchiveItem};
use crate::batch::{synced, Items};
use crate::counts::{lemma_sat_nat_add, lemma_sat_nat_plus, sat_nat, Counts};
use crate::formats::ArchiveFormat;
use crate::model::{
    classify, lemma_out_add_assoc, out_add, out_zero, run_container, run_item, run_items,
    ItemAction, Outcome,
};
use crate::options::ExtractionOptions;
use crate::output::{ExtractError, OutputWriter};
use crate::record::RecModel;
use crate::text::{decode_text, join_path};

verus! {

/// An executable counter set shows a model outcome when each field is the
/// clamped image of the model's exact count. (The traversal itself never
/// deduplicates; its `written` column counts emitted rows, which the
/// orchestrator later replaces by the writer's count.)
pub open spec fn counts_match(c: Counts, o: Outcome) -> bool {
    &&& c.read == sat_nat(o.read)
    &&& c.skipped == sat_nat(o.skipped)
    &&& c.written == sat_nat(o.rows.len())
    &&& c.deduplicated == 0
}

/// Consume one already-listed entry whose type and path have passed the
/// container's own checks: apply the size gate, descend into it when it is
/// itself an archive and recursion budget remains, apply the text gate,
/// and emit at most one record.
pub fn add_archive_entry(
    source: &str,
    path: &str,
    item: &ArchiveItem,
    items: &mut Items,
    out: &mut OutputWriter,
    options: ExtractionOptions,
    base: Ghost<Seq<RecModel>>,
) -> (r: Result<Counts, ExtractError>)
    requires
        synced(*old(items), *old(out), base@),
        crate::options::same_gates(old(items).options, options),
        options.wf(),
        item@.3,
        valid_utf8(item@.0),
        path@ == decode_utf8(item@.0),
    ensures
        synced(*final(items), *final(out), base@),
        final(items).options == old(items).options,
        final(items).capacity == old(items).capacity,
        r is Ok <==> run_item(options, source@, item@) is Some,
        r matches Ok(c) ==> run_item(options, source@, item@) matches Some(o) && counts_match(
            c,
            o,
        ) && final(items).emitted() == old(items).emitted() + o.rows,
        r is Err ==> r == Err::<Counts, ExtractError>(ExtractError::Io),
    decreases options.depth_budget(), 0nat,
{
    if !options.check_file_size(item.size) {
        proof {
            assert(classify(options, item@) is Skip);
            assert(old(items).emitted() + Seq::<RecModel>::empty() =~= old(items).emitted());
        }
        return Ok(Counts::new_skipped());
    }
    if options.max_depth.is_some() {
        let detected = ArchiveFormat::detect_type(item.data.as_slice(), &options);
        match detected {
            Ok(format) => {
                proof {
                    assert(options.depth_budget() >= 1);
                    assert(classify(options, item@) == ItemAction::Recurse(format));
                }
                let new_options = options.decrement_max_depth();
                let child_source = join_path(source, path);
                let r = format.extract(
                    child_source.as_str(),
                    item.data.as_slice(),
                    items,
                    out,
                    new_options,
                    base,
                );
                return r;
            },
            Err(_) => {
                proof {
                    assert(!(classify(options, item@) is Recurse));
                }
            },
        }
    }
    proof {
        assert(!(classify(options, item@) is Recurse));
    }
    if options.only_text {
        match decode_text(item.data.as_slice()) {
            Some(text) => {
                proof {
                    assert(classify(options, item@) is Emit);
                }
                let r = items.add_text_record(
                    out,
                    source,
                    path,
                    item.size,
                    text.as_str(),
                    base,
                );
                proof {
                    let row = crate::model::emitted_row(source@, item@);
                    assert(old(items).emitted().push(row) =~= old(items).emitted() + seq![row]);
                }
                match r {
                    Ok(_) => Ok(Counts::new_processed()),
                    Err(e) => Err(e),
                }
            },
            None => {
                proof {
                    assert(classify(options, item@) is Skip);
                    assert(old(items).emitted() + Seq::<RecModel>::empty() =~= old(
                        items,
                    ).emitted());
                }
                Ok(Counts::new_skipped())
            },
        }
    } else {
        proof {
            assert(classify(options, item@) is Emit);
        }
        let content = vstd::slice::slice_to_vec(item.data.as_slice());
        let r = items.add_record(out, source, path, item.size, content, base);
        proof {
            let row = crate::model::emitted_row(source@, item@);
            assert(old(items).emitted().push(row) =~= old(items).emitted() + seq![row]);
        }
        match r {
            Ok(_) => Ok(Counts::new_processed()),
            Err(e) => Err(e),
        }
    }
}

/// Walk an entry list in container order: skip non-regular entries and
/// entries whose path is not UTF-8 (counting them), and hand every other
/// entry to `add_archive_entry`, accumulating counters.
pub fn walk_items(
    source: &str,
    list: &Vec<ArchiveItem>,
    items: &mut Items,
    out: &mut OutputWriter,
    options: ExtractionOptions,
    base: Ghost<Seq<RecModel>>,
) -> (r: Result<Counts, ExtractError>)
    requires
        synced(*old(items), *old(out), base@),
        crate::options::same_gates(old(items).options, options),
        options.wf(),
    ensures
        synced(*final(items), *final(out), base@),
        final(items).options == old(items).options,
        final(items).capacity == old(items).capacity,
        r is Ok <==> run_items(options, source@, items_model(list@)) is Some,
        r matches Ok(c) ==> run_items(options, source@, items_model(list@)) matches Some(o)
            && counts_match(c, o) && final(items).emitted() == old(items).emitted() + o.rows,
        r is Err ==> r == Err::<Counts, ExtractError>(ExtractError::Io),
    decreases options.depth_budget(), 2nat,
{
    let ghost im = items_model(list@);
    let ghost emitted0 = old(items).emitted();
    let mut acc = Counts::zero();
    let ghost mut acc_o = out_zero();
    let mut idx: usize = 0;
    proof {
        assert(im.skip(0) =~= im);
        assert(emitted0 + acc_o.rows =~= emitted0);
    }
    while idx < list.len()
        invariant
            0 <= idx <= list.len(),
            im == items_model(list@),
            im.len() == list@.len(),
            synced(*items, *out, base@),
            items.options == old(items).options,
            items.capacity == old(items).capacity,
            crate::options::same_gates(items.options, options),
            options.wf(),
            counts_match(acc, acc_o),
            items.emitted() == emitted0 + acc_o.rows,
            emitted0 == old(items).emitted(),
            match run_items(options, source@, im.skip(idx as int)) {
                Some(rest) => run_items(options, source@, im) == Some(
                    out_add(acc_o, rest),
                ),
                None => run_items(options, source@, im) is None,
            },
        decreases list.len() - idx,
    {
        let it = &list[idx];
        proof {
            assert(im.skip(idx as int)[0] == im[idx as int]);
            assert(im[idx as int] == it@);
            assert(im.skip(idx as int).drop_first() =~= im.skip(idx as int + 1));
        }
        let ghost o_prev = acc_o;
        if !it.regular {
            acc.skipped();
            proof {
                assert(classify(options, it@) is Skip);
                let o_i = Outcome { rows: Seq::empty(), read: 1, skipped: 1 };
                assert(run_item(options, source@, it@) == Some(o_i));
                acc_o = out_add(o_prev, o_i);
                lemma_sat_nat_add(o_prev.read, 1);
                lemma_sat_nat_add(o_prev.skipped, 1);
                assert(acc_o.rows =~= o_prev.rows);
                assert(items.emitted() =~= emitted0 + acc_o.rows);
            }
        } else {
            let path_opt = decode_text(it.path.as_slice());
            match path_opt {
                None => {
                    acc.skipped();
                    proof {
                        assert(!valid_utf8(it@.0));
                        assert(classify(options, it@) is Skip);
                        let o_i = Outcome { rows: Seq::empty(), read: 1, skipped: 1 };
                        assert(run_item(options, source@, it@) == Some(o_i));
                        acc_o = out_add(o_prev, o_i);
                        lemma_sat_nat_add(o_prev.read, 1);
                        lemma_sat_nat_add(o_prev.skipped, 1);
                        assert(acc_o.rows =~= o_prev.rows);
                        assert(items.emitted() =~= emitted0 + acc_o.rows);
                    }
                },
                Some(path) => {
                    let step = add_archive_entry(
                        source,
                        path.as_str(),
                        it,
                        items,
                        out,
                        options,
                        base,
                    );
                    match step {
                        Ok(c) => {
                            let ghost o_i = run_item(options, source@, it@)->Some_0;
                            acc = acc.plus(c);
                            proof {
                                acc_o = out_add(o_prev, o_i);
                                lemma_sat_nat_plus(o_prev.read, o_i.read);
                                lemma_sat_nat_plus(o_prev.skipped, o_i.skipped);
                                lemma_sat_nat_plus(o_prev.rows.len(), o_i.rows.len());
                                assert((o_prev.rows + o_i.rows).len() == o_prev.rows.len()
                                    + o_i.rows.len());
                                assert(items.emitted() =~= emitted0 + acc_o.rows);
                            }
                        },
                        Err(e) => {
                            proof {
                                assert(run_item(options, source@, it@) is None);
                                assert(run_items(options, source@, im.skip(idx as int))
                                    is None);
                            }
                            return Err(e);
                        },
                    }
                },
            }
        }
        proof {
            let o_i = run_item(options, source@, it@)->Some_0;
            assert(run_item(options, source@, it@) == Some(o_i));
            match run_items(options, source@, im.skip(idx as int + 1)) {
                Some(rest2) => {
                    assert(run_items(options, source@, im.skip(idx as int)) == Some(
                        out_add(o_i, rest2),
                    ));
                    lemma_out_add_assoc(o_prev, o_i, rest2);
                },
                None => {
                    assert(run_items(options, source@, im.skip(idx as int)) is None);
                },
            }
        }
        idx = idx + 1;
    }
    proof {
        assert(im.skip(list@.len() as int) =~= Seq::<crate::archive::ItemModel>::empty());
        assert(run_items(options, source@, im.skip(idx as int)) == Some(out_zero()));
        let o = out_add(acc_o, out_zero());
        assert(run_items(options, source@, im) == Some(o));
        assert(o.rows =~= acc_o.rows);
        assert(items.emitted() =~= emitted0 + o.rows);
    }
    Ok(acc)
}

/// Extract every regular-file entry of a tar stream held in `data`.
pub fn extract_tar(
    source: &str,
    data: &[u8],
    items: &mut Items,
    out: &mut OutputWriter,
    options: ExtractionOptions,
    base: Ghost<Seq<RecModel>>,
) -> (r: Result<Counts, ExtractError>)
    requires
        synced(*old(items), *old(out), base@),
        crate::options::same_gates(old(items).options, options),
        options.wf(),
    ensures
        synced(*final(items), *final(out), base@),
        final(items).options == old(items).options,
        final(items).capacity == old(items).capacity,
        r is Ok <==> run_container(options, source@, ArchiveFormat::Tar, data@) is Some,
        r matches Ok(c) ==> run_container(options, source@, ArchiveFormat::Tar, data@)
            matches Some(o) && counts_match(c, o) && final(items).emitted() == old(
            items,
        ).emitted() + o.rows,
        r is Err ==> r == Err::<Counts, ExtractError>(ExtractError::Io),
    decreases options.depth_budget(), 3nat,
{
    match tar_list(data) {
        None => Err(ExtractError::Io),
        Some(list) => walk_items(source, &list, items, out, options, base),
    }
}

/// Extract every file entry of a zip stream held in `data`.
pub fn extract_zip(
    source: &str,
    data: &[u8],
    items: &mut Items,
    out: &mut OutputWriter,
    options: ExtractionOptions,
    base: Ghost<Seq<RecModel>>,
) -> (r: Result<Counts, ExtractError>)
    requires
        synced(*old(items), *old(out), base@),
        crate::options::same_gates(old(items).options, options),
        options.wf(),
    ensures
        synced(*final(items), *final(out), base@),
        final(items).options == old(items).options,
        final(items).capacity == old(items).capacity,
        r is Ok <==> run_container(options, source@, ArchiveFormat::Zip, data@) is Some,
        r matches Ok(c) ==> run_container(options, source@, ArchiveFormat::Zip, data@)
            matches Some(o) && counts_match(c, o) && final(items).emitted() == old(
            items,
        ).emitted() + o.rows,
        r is Err ==> r == Err::<Counts, ExtractError>(ExtractError::Io),
    decreases options.depth_budget(), 3nat,
{
    match zip_list(data) {
        None => Err(ExtractError::Io),
        Some(list) => walk_items(source, &list, items, out, options, base),
    }
}

impl ArchiveFormat {
    /// Extract a container of this format held in `data` into the batch
    /// builder: tar directly, tar.gz through one gzip layer, zip via its
    /// local file headers.
    pub fn extract(
        &self,
        source: &str,
        data: &[u8],
        items: &mut Items,
        out: &mut OutputWriter,
        options: ExtractionOptions,
        base: Ghost<Seq<RecModel>>,
    ) -> (r: Result<Counts, ExtractError>)
        requires
            synced(*old(items), *old(out), base@),
            crate::options::same_gates(old(items).options, options),
            options.wf(),
        ensures
            synced(*final(items), *final(out), base@),
            final(items).options == old(items).options,
            final(items).capacity == old(items).capacity,
            r is Ok <==> run_container(options, source@, *self, data@) is Some,
            r matches Ok(c) ==> run_container(options, source@, *self, data@) matches Some(o)
                && counts_match(c, o) && final(items).emitted() == old(items).emitted()
                + o.rows,
            r is Err ==> r == Err::<Counts, ExtractError>(ExtractError::Io),
        decreases options.depth_budget(), 4nat,
    {
        match self {
            ArchiveFormat::Tar => extract_tar(source, data, items, out, options, base),
            ArchiveFormat::Zip => extract_zip(source, data, items, out, options, base),
            ArchiveFormat::TarGz => {
                match gunzip(data) {
                    None => Err(ExtractError::Io),
                    Some(decoded) => extract_tar(
                        source,
                        decoded.as_slice(),
                        items,
                        out,
                        options,
                        base,
                    ),
                }
            },
        }
    }
}

} // verus!
