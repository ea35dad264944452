//! The input registry and the extraction orchestrator.
//!
//! The registry holds pending inputs — a label, a pre-detected format and
//! the input's bytes — deduplicated by label, with the policy for inputs
//! whose format cannot be detected. The orchestrator drains the registry,
//! runs every input through the traversal into one shared writer, and
//! combines the counters exactly as the model `run_inputs` says.

use vstd::prelude::*;
use crate::batch::Items;
use crate::counts::{lemma_sat_nat_plus, sat_nat, Counts};
use crate::dedup::{final_rows, lemma_concat_equiv, lemma_dedup_distinct, streams_equiv};
use crate::formats::{spec_detect, ArchiveFormat, FormatError};
use crate::model::{lemma_out_add_assoc, out_add, out_zero, run_container, Outcome};
use crate::options::ExtractionOptions;
use crate::output::{ExtractError, OutputWriter};
use crate::record::{rows_model, rows_wf, RecModel, Record};

verus! {

/// An error while registering an input: which input, and why.
#[derive(Debug, Clone, PartialEq, Eq)]
pub struct InputError {
    pub error: FormatError,
    pub path: String,
}

impl InputError {
    pub fn new(path: String, error: FormatError) -> (r: InputError)
        ensures
            r.path == path,
            r.error == error,
    {
        InputError { error, path }
    }
}

/// One registered input: a label, its detected (or pre-declared) format,
/// and its bytes. Consumed exactly once.
pub struct Content {
    pub path: String,
    pub format: ArchiveFormat,
    pub data: Vec<u8>,
}

impl Content {
    /// The input's label.
    pub fn path(&self) -> (r: &String)
        ensures
            r == self.path,
    {
        &self.path
    }

    /// Run this input through the traversal into the shared writer,
    /// flushing the final partial batch, and combine the traversal's
    /// counters with the builder's in-batch removals.
    pub fn extract(self, out: &mut OutputWriter, options: ExtractionOptions) -> (r: Result<
        Counts,
        ExtractError,
    >)
        requires
            old(out).inv(),
            !old(out).closed,
            old(out).options == options,
            options.wf(),
        ensures
            final(out).inv(),
            !final(out).closed,
            final(out).options == options,
            old(out).received@.len() <= final(out).received@.len(),
            r is Ok <==> run_container(options, self.path@, self.format, self.data@) is Some,
            r matches Ok(c) ==> run_container(options, self.path@, self.format, self.data@)
                matches Some(o) && {
                &&& streams_equiv(
                    final(out).received@,
                    old(out).received@ + o.rows,
                    options.unique,
                )
                &&& final(out).received@.len() <= old(out).received@.len() + o.rows.len()
                &&& c.read == sat_nat(o.read)
                &&& c.skipped == sat_nat(o.skipped)
                &&& c.written == sat_nat(o.rows.len())
                &&& c.deduplicated == sat_nat(
                    (old(out).received@.len() + o.rows.len() - final(out).received@.len()) as nat,
                )
            },
            r is Err ==> r == Err::<Counts, ExtractError>(ExtractError::Io),
    {
        let ghost base = out.received@;
        let mut items = Items::new_with_capacity(1024, options);
        proof {
            assert(out.received@ =~= base + items.flushed@);
        }
        let run = self.format.extract(
            self.path.as_str(),
            self.data.as_slice(),
            &mut items,
            out,
            options,
            Ghost(base),
        );
        match run {
            Ok(c) => {
                let fl = items.flush(out, Ghost(base));
                match fl {
                    Ok(_) => {
                        let ic = items.counts();
                        proof {
                            let o = run_container(
                                options,
                                self.path@,
                                self.format,
                                self.data@,
                            )->Some_0;
                            assert(items.pending() =~= Seq::<RecModel>::empty());
                            assert(items.emitted() =~= items.chunked@);
                            assert(items.chunked@ =~= o.rows);
                            if options.unique {
                                crate::dedup::lemma_suffix_equiv(
                                    base,
                                    items.flushed@,
                                    items.chunked@,
                                );
                            }
                            assert(out.received@.len() == base.len() + items.flushed@.len());
                        }
                        Ok(c.plus(ic))
                    },
                    Err(e) => Err(e),
                }
            },
            Err(e) => Err(e),
        }
    }
}

/// The registry of pending inputs.
pub struct InputContents {
    pub contents: Vec<Content>,
}

/// Whether some registered input already carries this label.
pub open spec fn spec_has_path(contents: Seq<Content>, path: Seq<char>) -> bool {
    exists|i: int| 0 <= i < contents.len() && contents[i].path@ == path
}

impl InputContents {
    /// An empty registry.
    pub fn new() -> (r: InputContents)
        ensures
            r.contents@ == Seq::<Content>::empty(),
    {
        InputContents { contents: Vec::new() }
    }

    /// A registry holding exactly the given inputs.
    pub fn from_contents(contents: Vec<Content>) -> (r: InputContents)
        ensures
            r.contents == contents,
    {
        InputContents { contents }
    }

    /// How many inputs are pending.
    pub fn len(&self) -> (r: usize)
        ensures
            r == self.contents@.len(),
    {
        self.contents.len()
    }

    /// Whether no input is pending.
    pub fn is_empty(&self) -> (r: bool)
        ensures
            r == (self.contents@.len() == 0),
    {
        self.contents.is_empty()
    }

    /// Whether an input with this label was already registered.
    pub fn input_path_exists(&self, path: &String) -> (r: bool)
        ensures
            r == spec_has_path(self.contents@, path@),
    {
        let mut found = false;
        for i in 0..self.contents.len()
            invariant
                found == exists|j: int| 0 <= j < i && self.contents@[j].path@ == path@,
        {
            if !found && self.contents[i].path.eq(path) {
                found = true;
                assert(self.contents@[i as int].path@ == path@);
            }
        }
        found
    }

    /// Register a buffer input: detect its format, then add it — unless
    /// the label is already present (a silent no-op), or the format is
    /// unsupported while `ignore_unsupported` is set (also a no-op).
    /// Every other detection failure is returned with the label.
    pub fn add_buffer(
        &mut self,
        path: String,
        buffer: Vec<u8>,
        options: &ExtractionOptions,
    ) -> (r: Result<(), InputError>)
        ensures
            spec_has_path(old(self).contents@, path@) ==> r is Ok && *final(self) == *old(
                self,
            ),
            !spec_has_path(old(self).contents@, path@) ==> match spec_detect(
                buffer@,
                options.min_file_size,
            ) {
                Ok(f) => r is Ok && final(self).contents@ == old(self).contents@.push(
                    Content { path, format: f, data: buffer },
                ),
                Err(e) => {
                    if e == FormatError::UnsupportedFormat && options.ignore_unsupported {
                        r is Ok && *final(self) == *old(self)
                    } else {
                        r is Err && r->Err_0.error == e && r->Err_0.path == path
                            && *final(self) == *old(self)
                    }
                },
            },
    {
        if self.input_path_exists(&path) {
            return Ok(());
        }
        match ArchiveFormat::detect_type(buffer.as_slice(), options) {
            Ok(format) => {
                self.contents.push(Content { path, format, data: buffer });
                Ok(())
            },
            Err(e) => {
                if matches!(e, FormatError::UnsupportedFormat) && options.ignore_unsupported {
                    Ok(())
                } else {
                    Err(InputError::new(path, e))
                }
            },
        }
    }

    /// Register an input whose format the caller already knows; no
    /// detection, no label deduplication.
    pub fn add_reader(&mut self, path: String, data: Vec<u8>, format: ArchiveFormat)
        ensures
            final(self).contents@ == old(self).contents@.push(Content { path, format, data }),
    {
        self.contents.push(Content { path, format, data });
    }

    /// Move every pending input out for processing, in registration
    /// order (the deterministic, sequential drain).
    pub fn contents_sequential(&mut self) -> (r: Vec<Content>)
        ensures
            r@ == old(self).contents@,
            final(self).contents@ == Seq::<Content>::empty(),
    {
        let mut out: Vec<Content> = Vec::new();
        core::mem::swap(&mut out, &mut self.contents);
        out
    }
}

/// What a whole run produces: every registered input traversed in order,
/// or nothing when any input's traversal fails.
pub open spec fn run_inputs(options: ExtractionOptions, cs: Seq<Content>) -> Option<Outcome>
    decreases cs.len(),
{
    if cs.len() == 0 {
        Some(out_zero())
    } else {
        match run_container(options, cs[0].path@, cs[0].format, cs[0].data@) {
            None => None,
            Some(o1) => match run_inputs(options, cs.drop_first()) {
                None => None,
                Some(o2) => Some(out_add(o1, o2)),
            },
        }
    }
}

/// The extraction orchestrator: options, the input registry, and the one
/// shared output writer.
pub struct Extractor {
    pub options: ExtractionOptions,
    pub output: OutputWriter,
    pub input: InputContents,
    /// Every row emitted by the traversals of a clean run, in order.
    /// After a failed run it is reset to mirror the writer's stream.
    pub history: Ghost<Seq<RecModel>>,
}

impl Extractor {
    /// The orchestrator's invariant: the writer is open and consistent,
    /// runs under the same options, and holds (up to the run's filter)
    /// exactly the rows of the history.
    pub open spec fn inv(self) -> bool {
        &&& self.output.inv()
        &&& !self.output.closed
        &&& self.output.options == self.options
        &&& self.options.wf()
        &&& streams_equiv(self.output.received@, self.history@, self.options.unique)
        &&& self.output.received@.len() <= self.history@.len()
    }

    /// A fresh orchestrator with an empty registry and a fresh writer.
    pub fn new(options: ExtractionOptions) -> (r: Extractor)
        requires
            options.wf(),
        ensures
            r.inv(),
            r.options == options,
            r.input.contents@ == Seq::<Content>::empty(),
            r.history@ == Seq::<RecModel>::empty(),
    {
        let output = OutputWriter::new(options);
        let input = InputContents::new();
        Extractor { options, output, input, history: Ghost(Seq::empty()) }
    }

    /// Replace the registry.
    pub fn set_input_contents(&mut self, files: InputContents)
        requires
            old(self).inv(),
        ensures
            final(self).inv(),
            final(self).input == files,
            final(self).options == old(self).options,
            final(self).history == old(self).history,
            final(self).output == old(self).output,
    {
        self.input = files;
    }

    /// How many inputs are registered.
    pub fn input_file_count(&self) -> (r: usize)
        ensures
            r == self.input.contents@.len(),
    {
        self.input.len()
    }

    /// Whether any input is registered.
    pub fn has_input_files(&self) -> (r: bool)
        ensures
            r == (self.input.contents@.len() > 0),
    {
        !self.input.is_empty()
    }

    /// Register a buffer input under this run's options (see
    /// `InputContents::add_buffer`).
    pub fn add_buffer(&mut self, path: String, buffer: Vec<u8>) -> (r: Result<(), InputError>)
        requires
            old(self).inv(),
        ensures
            final(self).inv(),
            final(self).options == old(self).options,
            final(self).history == old(self).history,
            final(self).output == old(self).output,
            spec_has_path(old(self).input.contents@, path@) ==> r is Ok && final(self).input
                == old(self).input,
            !spec_has_path(old(self).input.contents@, path@) ==> match spec_detect(
                buffer@,
                old(self).options.min_file_size,
            ) {
                Ok(f) => r is Ok && final(self).input.contents@ == old(
                    self,
                ).input.contents@.push(Content { path, format: f, data: buffer }),
                Err(e) => {
                    if e == FormatError::UnsupportedFormat && old(
                        self,
                    ).options.ignore_unsupported {
                        r is Ok && final(self).input == old(self).input
                    } else {
                        r is Err && r->Err_0.error == e && r->Err_0.path == path
                            && final(self).input == old(self).input
                    }
                },
            },
    {
        let options = self.options;
        self.input.add_buffer(path, buffer, &options)
    }

    /// Register an input of a pre-declared format.
    pub fn add_reader(&mut self, path: String, data: Vec<u8>, format: ArchiveFormat)
        requires
            old(self).inv(),
        ensures
            final(self).inv(),
            final(self).options == old(self).options,
            final(self).history == old(self).history,
            final(self).output == old(self).output,
            final(self).input.contents@ == old(self).input.contents@.push(
                Content { path, format, data },
            ),
    {
        self.input.add_reader(path, data, format);
    }

    /// Drain the registry and run every input, in registration order,
    /// into the shared writer. All inputs are processed; the first
    /// failure, if any, is reported after the rest have run, and rows
    /// already written stay written. On success the returned counters
    /// are: entries read and skipped summed over the traversals, rows
    /// written as the writer's total, and removals of both scopes
    /// combined.
    pub fn extract(&mut self) -> (r: Result<Counts, ExtractError>)
        requires
            old(self).inv(),
        ensures
            final(self).inv(),
            final(self).options == old(self).options,
            final(self).input.contents@ == Seq::<Content>::empty(),
            r is Ok <==> run_inputs(old(self).options, old(self).input.contents@) is Some,
            r matches Ok(c) ==> run_inputs(old(self).options, old(self).input.contents@)
                matches Some(o) && {
                &&& final(self).history@ == old(self).history@ + o.rows
                &&& rows_model(final(self).output.rows@) == final_rows(
                    final(self).history@,
                    old(self).options.unique,
                )
                &&& c.read == sat_nat(o.read)
                &&& c.skipped == sat_nat(o.skipped)
                &&& c.written == sat_nat(final_rows(
                    final(self).history@,
                    old(self).options.unique,
                ).len())
                &&& (old(self).history@ == Seq::<RecModel>::empty() ==> c.deduplicated
                    == sat_nat(
                    (final(self).history@.len() - final_rows(
                        final(self).history@,
                        old(self).options.unique,
                    ).len()) as nat,
                ))
            },
            r is Err ==> r == Err::<Counts, ExtractError>(ExtractError::Io),
    {
        let options = self.options;
        let mut pending = self.input.contents_sequential();
        let ghost cs = pending@;
        let ghost h0 = self.history@;
        let ghost r0 = self.output.received@;
        let mut acc = Counts::zero();
        let ghost mut acc_o = out_zero();
        let mut first_err: Option<ExtractError> = None;
        proof {
            assert(cs.skip(0) =~= cs);
            assert(h0 + acc_o.rows =~= h0);
        }
        let ghost mut i: int = 0;
        while pending.len() > 0
            invariant
                0 <= i <= cs.len(),
                pending@.len() == cs.len() - i,
                pending@ == cs.skip(i),
                self.options == options,
                options.wf(),
                self.output.inv(),
                !self.output.closed,
                self.output.options == options,
                h0 == old(self).history@,
                r0.len() <= self.output.received@.len(),
                self.input.contents@ == Seq::<Content>::empty(),
                first_err is None ==> {
                    &&& self.history@ == h0 + acc_o.rows
                    &&& streams_equiv(self.output.received@, self.history@, options.unique)
                    &&& self.output.received@.len() <= self.history@.len()
                    &&& h0.len() <= self.history@.len()
                    &&& acc.read == sat_nat(acc_o.read)
                    &&& acc.skipped == sat_nat(acc_o.skipped)
                    &&& acc.deduplicated == sat_nat(
                        (acc_o.rows.len() - (self.output.received@.len() - r0.len())) as nat,
                    )
                    &&& self.output.received@.len() - r0.len() <= acc_o.rows.len()
                    &&& match run_inputs(options, cs.skip(i)) {
                        Some(rest) => run_inputs(options, cs) == Some(out_add(acc_o, rest)),
                        None => run_inputs(options, cs) is None,
                    }
                },
                first_err is Some ==> first_err == Some(ExtractError::Io) && run_inputs(
                    options,
                    cs,
                ) is None,
            decreases pending.len(),
        {
            let content = pending.remove(0);
            proof {
                assert(content == cs.skip(i)[0]);
                assert(cs.skip(i)[0] == cs[i]);
                assert(pending@ =~= cs.skip(i + 1));
                assert(cs.skip(i).drop_first() =~= cs.skip(i + 1));
            }
            let ghost rcv_before = self.output.received@;
            let ghost o_prev = acc_o;
            let had_err = first_err.is_some();
            let step = content.extract(&mut self.output, options);
            if !had_err {
                match step {
                    Ok(c) => {
                        let ghost o_i = run_container(
                            options,
                            cs[i].path@,
                            cs[i].format,
                            cs[i].data@,
                        )->Some_0;
                        acc = acc.plus(c);
                        proof {
                            acc_o = out_add(o_prev, o_i);
                            self.history@ = h0 + acc_o.rows;
                            assert(h0 + (o_prev.rows + o_i.rows) =~= (h0 + o_prev.rows)
                                + o_i.rows);
                            lemma_sat_nat_plus(o_prev.read, o_i.read);
                            lemma_sat_nat_plus(o_prev.skipped, o_i.skipped);
                            if options.unique {
                                lemma_concat_equiv(rcv_before, h0 + o_prev.rows, o_i.rows);
                            }
                            let removed_before = (o_prev.rows.len() - (rcv_before.len()
                                - r0.len())) as nat;
                            let removed_step = (o_i.rows.len() - (self.output.received@.len()
                                - rcv_before.len())) as nat;
                            lemma_sat_nat_plus(removed_before, removed_step);
                            match run_inputs(options, cs.skip(i + 1)) {
                                Some(rest2) => {
                                    lemma_out_add_assoc(o_prev, o_i, rest2);
                                },
                                None => {},
                            }
                        }
                    },
                    Err(e) => {
                        first_err = Some(e);
                        proof {
                            assert(run_container(
                                options,
                                cs[i].path@,
                                cs[i].format,
                                cs[i].data@,
                            ) is None);
                            assert(run_inputs(options, cs.skip(i)) is None);
                        }
                    },
                }
            }
            proof {
                i = i + 1;
            }
        }
        match first_err {
            Some(e) => {
                proof {
                    self.history@ = self.output.received@;
                }
                Err(e)
            },
            None => {
                proof {
                    assert(cs.skip(i) =~= Seq::<Content>::empty());
                    assert(run_inputs(options, cs.skip(i)) == Some(out_zero()));
                    let o = out_add(acc_o, out_zero());
                    assert(run_inputs(options, cs) == Some(o));
                    assert(o.rows =~= acc_o.rows);
                    assert(self.history@ =~= h0 + o.rows);
                }
                let wcounts = self.output.counts();
                let combined = Counts {
                    read: acc.read,
                    skipped: acc.skipped,
                    deduplicated: acc.deduplicated.saturating_add(wcounts.deduplicated),
                    written: wcounts.written,
                };
                proof {
                    let unique = options.unique;
                    let hist = self.history@;
                    let rcv = self.output.received@;
                    assert(rows_model(self.output.rows@) == final_rows(rcv, unique));
                    if unique {
                        assert(final_rows(rcv, unique) == final_rows(hist, unique));
                    }
                    assert(rows_model(self.output.rows@).len() == self.output.rows@.len());
                    if h0 =~= Seq::<RecModel>::empty() {
                        assert(r0.len() == 0);
                        assert(r0 =~= Seq::<RecModel>::empty());
                        let in_batch = (acc_o.rows.len() - rcv.len()) as nat;
                        let cross = (rcv.len() - self.output.rows@.len()) as nat;
                        lemma_sat_nat_plus(in_batch, cross);
                        assert(hist.len() == acc_o.rows.len());
                        assert(final_rows(hist, unique).len() == self.output.rows@.len());
                    }
                }
                Ok(combined)
            },
        }
    }

    /// The writer's own counters, mid-run.
    pub fn counts(&self) -> (r: Counts)
        requires
            self.inv(),
        ensures
            r == self.output.counts,
    {
        self.output.counts()
    }

    /// Finalize the run: close the writer and hand out the persisted
    /// rows — the first-occurrence filter of the history under `unique`,
    /// the whole history otherwise. Every row is well-formed, every
    /// digest 32 bytes wide, and under `unique` all digests are pairwise
    /// distinct.
    pub fn finish(&mut self) -> (r: Result<Vec<Record>, ExtractError>)
        requires
            old(self).inv(),
        ensures
            final(self).output.closed,
            r matches Ok(v) && (rows_model(v@) == final_rows(
                old(self).history@,
                old(self).options.unique,
            ) && rows_wf(rows_model(v@), old(self).options) && (forall|i: int|
                0 <= i < v@.len() ==> (#[trigger] rows_model(v@)[i]).hash_len_ok()) && (old(
                self,
            ).options.unique ==> forall|i: int, j: int|
                0 <= i < j < v@.len() ==> rows_model(v@)[i].hash != rows_model(v@)[j].hash)),
    {
        proof {
            if self.options.unique {
                lemma_dedup_distinct(self.output.received@, Set::empty());
            }
        }
        self.output.finish()
    }
}

/// A run over two input lists in sequence produces what the two runs
/// produce one after the other.
pub proof fn lemma_run_inputs_concat(
    options: ExtractionOptions,
    a: Seq<Content>,
    b: Seq<Content>,
)
    ensures
        match (run_inputs(options, a), run_inputs(options, b)) {
            (Some(oa), Some(ob)) => run_inputs(options, a + b) == Some(out_add(oa, ob)),
            _ => run_inputs(options, a + b) is None,
        },
    decreases a.len(),
{
    if a.len() == 0 {
        assert(a + b =~= b);
        match run_inputs(options, b) {
            Some(ob) => {
                assert(out_add(out_zero(), ob) =~= ob);
            },
            None => {},
        }
    } else {
        assert((a + b)[0] == a[0]);
        assert((a + b).drop_first() =~= a.drop_first() + b);
        lemma_run_inputs_concat(options, a.drop_first(), b);
        match (run_container(options, a[0].path@, a[0].format, a[0].data@), run_inputs(
            options,
            a.drop_first(),
        ), run_inputs(options, b)) {
            (Some(o0), Some(oa1), Some(ob)) => {
                lemma_out_add_assoc(o0, oa1, ob);
            },
            _ => {},
        }
    }
}

/// Idempotence at the level of whole runs: registering the same inputs
/// twice and extracting under `unique` persists exactly the rows of the
/// single run.
pub proof fn lemma_extract_twice(options: ExtractionOptions, cs: Seq<Content>)
    ensures
        run_inputs(options, cs) matches Some(o) ==> run_inputs(options, cs + cs)
            matches Some(oo) && final_rows(oo.rows, true) == final_rows(o.rows, true),
{
    lemma_run_inputs_concat(options, cs, cs);
    match run_inputs(options, cs) {
        Some(o) => {
            crate::laws::lemma_idempotent(o.rows);
        },
        None => {},
    }
}

/// The accounting identity of a clean run: every entry observed over all
/// inputs is either skipped or contributes exactly one emitted row, and
/// `final_rows` splits the emitted rows into written and deduplicated
/// ones — so `read == skipped + written + deduplicated` holds of the
/// exact counts.
pub proof fn lemma_inputs_accounting(options: ExtractionOptions, cs: Seq<Content>)
    ensures
        run_inputs(options, cs) matches Some(o) ==> o.read == o.skipped + o.rows.len(),
    decreases cs.len(),
{
    if cs.len() > 0 {
        crate::laws::lemma_container_accounting(
            options,
            cs[0].path@,
            cs[0].format,
            cs[0].data@,
        );
        lemma_inputs_accounting(options, cs.drop_first());
    }
}

} // verus!
