//! Format detection: classify a byte prefix as tar, gzip-compressed tar,
//! zip, or unsupported.
//!
//! Detection looks at a window of at most [`BUF_SIZE`] bytes. The tar and
//! zip signatures are plain byte tests, stated exactly; for gzip input the
//! sniffer additionally decompresses up to [`BUF_SIZE`] bytes and looks for
//! the tar signature in the decompressed prefix.

use vstd::prelude::*;
use std::io::Read;

verus! {

/// Window inspected by detection: tar needs 262 bytes, gzip and zip far
/// fewer; 280 leaves headroom.
pub const BUF_SIZE: usize = 280;

/// Why a stream could not be classified.
#[derive(Debug, Clone, Copy, PartialEq, Eq, Structural)]
pub enum FormatError {
    /// The underlying byte stream failed (here: a gzip layer that does not
    /// decode).
    Io,
    /// The stream yielded zero bytes.
    Empty,
    /// The prefix matched no known container format.
    UnsupportedFormat,
}

/// The three container formats the engine extracts.
#[derive(Debug, Clone, Copy, PartialEq, Eq, Hash, Structural)]
pub enum ArchiveFormat {
    Tar,
    TarGz,
    Zip,
}

/// The POSIX/GNU tar signature: the magic `ustar` at offset 257.
pub open spec fn is_tar_sig(b: Seq<u8>) -> bool {
    &&& b.len() > 261
    &&& b[257] == 0x75u8
    &&& b[258] == 0x73u8
    &&& b[259] == 0x74u8
    &&& b[260] == 0x61u8
    &&& b[261] == 0x72u8
}

/// The zip signature: `PK` followed by a local-file, end-of-central-
/// directory or data-descriptor marker, or the winzip variant.
pub open spec fn is_zip_sig(b: Seq<u8>) -> bool {
    &&& b.len() > 3
    &&& b[0] == 0x50u8
    &&& b[1] == 0x4bu8
    &&& {
        ||| (b[2] == 0x03u8 && b[3] == 0x04u8)
        ||| (b[2] == 0x05u8 && b[3] == 0x06u8)
        ||| (b[2] == 0x07u8 && b[3] == 0x08u8)
        ||| (b.len() > 7 && b[2] == 0x30u8 && b[3] == 0x30u8 && b[4] == 0x50u8
            && b[5] == 0x4bu8 && b[6] == 0x03u8 && b[7] == 0x04u8)
    }
}

/// The gzip signature: `1f 8b` and the deflate method byte.
pub open spec fn is_gzip_sig(b: Seq<u8>) -> bool {
    &&& b.len() > 2
    &&& b[0] == 0x1fu8
    &&& b[1] == 0x8bu8
    &&& b[2] == 0x08u8
}

/// Relies on infer's `archive::is_tar`: true exactly on the `ustar` magic
/// at offset 257, as `is_tar_sig` states.
#[verifier::external_body]
fn tar_signature(buf: &[u8]) -> (r: bool)
    ensures
        r == is_tar_sig(buf@),
{
    infer::archive::is_tar(buf)
}

/// Relies on infer's `archive::is_zip`: true exactly on the zip markers
/// that `is_zip_sig` states.
#[verifier::external_body]
fn zip_signature(buf: &[u8]) -> (r: bool)
    ensures
        r == is_zip_sig(buf@),
{
    infer::archive::is_zip(buf)
}

/// Relies on infer's `archive::is_gz`: true exactly on the gzip magic that
/// `is_gzip_sig` states.
#[verifier::external_body]
fn gzip_signature(buf: &[u8]) -> (r: bool)
    ensures
        r == is_gzip_sig(buf@),
{
    infer::archive::is_gz(buf)
}

/// The first bytes (at most [`BUF_SIZE`]) that gzip decompression of the
/// given bytes yields, or `None` when they do not decode that far. A pure
/// function of the input bytes.
pub uninterp spec fn gunzip_head_of(data: Seq<u8>) -> Option<Seq<u8>>;

/// Relies on flate2's `GzDecoder`: decompresses at most [`BUF_SIZE`] bytes
/// of the gzip stream `data`; fails when the needed part of the stream
/// does not decode. The outcome depends on the input bytes alone, which is
/// what lets it carry the name `gunzip_head_of`.
#[verifier::external_body]
fn gunzip_head(data: &[u8]) -> (r: Option<Vec<u8>>)
    ensures
        r is Some <==> gunzip_head_of(data@) is Some,
        r matches Some(v) ==> Some(v@) == gunzip_head_of(data@) && v@.len() <= BUF_SIZE,
{
    let mut buf = Vec::new();
    match flate2::read::GzDecoder::new(data).take(BUF_SIZE as u64).read_to_end(&mut buf) {
        Ok(_) => Some(buf),
        Err(_) => None,
    }
}

/// The detection window: the whole input when short, else its first
/// [`BUF_SIZE`] bytes.
pub open spec fn head_of(data: Seq<u8>) -> Seq<u8> {
    if data.len() <= BUF_SIZE {
        data
    } else {
        data.take(BUF_SIZE as int)
    }
}

/// What classification returns on a buffer, for a given minimum size:
/// an empty window is `Empty`; a window below the minimum size is
/// unsupported; then the tar, zip and gzip signatures are tried in that
/// order, where gzip input is classified as tar.gz exactly when its
/// decompressed prefix carries the tar signature (and the window-size
/// rules are applied to that prefix too); anything else is unsupported.
pub open spec fn spec_detect(data: Seq<u8>, min_size: u64) -> Result<ArchiveFormat, FormatError> {
    let head = head_of(data);
    if head.len() == 0 {
        Err(FormatError::Empty)
    } else if head.len() < min_size {
        Err(FormatError::UnsupportedFormat)
    } else if is_tar_sig(head) {
        Ok(ArchiveFormat::Tar)
    } else if is_zip_sig(head) {
        Ok(ArchiveFormat::Zip)
    } else if is_gzip_sig(head) {
        match gunzip_head_of(head) {
            None => Err(FormatError::Io),
            Some(inner) => if inner.len() == 0 {
                Err(FormatError::Empty)
            } else if inner.len() < min_size {
                Err(FormatError::UnsupportedFormat)
            } else if is_tar_sig(inner) {
                Ok(ArchiveFormat::TarGz)
            } else {
                Err(FormatError::UnsupportedFormat)
            },
        }
    } else {
        Err(FormatError::UnsupportedFormat)
    }
}

impl ArchiveFormat {
    /// Classify a buffer, exactly as `spec_detect` states.
    pub fn detect_type(data: &[u8], options: &crate::options::ExtractionOptions) -> (r: Result<
        ArchiveFormat,
        FormatError,
    >)
        ensures
            r == spec_detect(data@, options.min_file_size),
    {
        let head: &[u8] = if data.len() <= BUF_SIZE {
            data
        } else {
            vstd::slice::slice_subrange(data, 0, BUF_SIZE)
        };
        if head.len() == 0 {
            return Err(FormatError::Empty);
        }
        if (head.len() as u64) < options.min_file_size {
            return Err(FormatError::UnsupportedFormat);
        }
        if tar_signature(head) {
            return Ok(ArchiveFormat::Tar);
        }
        if zip_signature(head) {
            return Ok(ArchiveFormat::Zip);
        }
        if gzip_signature(head) {
            match gunzip_head(head) {
                None => Err(FormatError::Io),
                Some(inner) => {
                    if inner.len() == 0 {
                        Err(FormatError::Empty)
                    } else if (inner.len() as u64) < options.min_file_size {
                        Err(FormatError::UnsupportedFormat)
                    } else if tar_signature(inner.as_slice()) {
                        Ok(ArchiveFormat::TarGz)
                    } else {
                        Err(FormatError::UnsupportedFormat)
                    }
                },
            }
        } else {
            Err(FormatError::UnsupportedFormat)
        }
    }
}

} // verus!
