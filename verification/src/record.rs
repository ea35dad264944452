//! The output row type and its mathematical model.

use vstd::prelude::*;
use vstd::utf8::valid_utf8;
use crate::digest::{sha256_of, HASH_WIDTH};
use crate::options::ExtractionOptions;

verus! {

/// One emitted row: the originating input (or the chain of nested archive
/// paths), the entry's internal path, its declared size, the SHA-256 digest
/// of the content, and the content bytes themselves. When text gating is on
/// the content bytes are valid UTF-8 and the content column is typed as
/// text; decoding is lossless, so the bytes are the same either way.
#[derive(Debug, Clone)]
pub struct Record {
    pub source: String,
    pub path: String,
    pub size: u64,
    pub hash: Vec<u8>,
    pub content: Vec<u8>,
}

/// The mathematical value of a [`Record`].
pub ghost struct RecModel {
    pub source: Seq<char>,
    pub path: Seq<char>,
    pub size: u64,
    pub hash: Seq<u8>,
    pub content: Seq<u8>,
}

impl View for Record {
    type V = RecModel;

    open spec fn view(&self) -> RecModel {
        RecModel {
            source: self.source@,
            path: self.path@,
            size: self.size,
            hash: self.hash@,
            content: self.content@,
        }
    }
}

impl RecModel {
    /// Well-formedness of one row under the run's options: the declared
    /// size passed the size gate, the hash is the SHA-256 digest of the
    /// content, and under text gating the content is valid UTF-8. (That
    /// the digest is 32 bytes wide is known wherever it was computed, and
    /// carried separately: see `hash_len_ok`.)
    pub open spec fn wf(self, opts: ExtractionOptions) -> bool {
        &&& opts.spec_size_ok(self.size)
        &&& self.hash == sha256_of(self.content)
        &&& (opts.only_text ==> valid_utf8(self.content))
    }

    /// The hash column is fixed-size: 32 bytes.
    pub open spec fn hash_len_ok(self) -> bool {
        self.hash.len() == HASH_WIDTH
    }
}

/// The models of a vector of rows, in order.
pub open spec fn rows_model(rows: Seq<Record>) -> Seq<RecModel> {
    rows.map_values(|r: Record| r@)
}

/// Every row of `rows` is well-formed under `opts`.
pub open spec fn rows_wf(rows: Seq<RecModel>, opts: ExtractionOptions) -> bool {
    forall|i: int| 0 <= i < rows.len() ==> #[trigger] rows[i].wf(opts)
}

} // verus!
