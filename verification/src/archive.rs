//! Entry lists of the three container formats.
//!
//! A container is consumed as one in-memory buffer and yields its entries
//! in the container's native order. What an outside parser returns for a
//! given buffer is a pure function of the buffer's bytes; the library
//! names those results (`tar_items_of`, `zip_items_of`, `gunzip_of`) and
//! proves everything downstream of the listing against the names.

use vstd::prelude::*;
use std::io::Read;

verus! {

/// One entry as listed from a container: the raw path bytes, the declared
/// size, the content bytes, and whether the entry is a regular file.
#[derive(Debug, Clone)]
pub struct ArchiveItem {
    pub path: Vec<u8>,
    pub size: u64,
    pub data: Vec<u8>,
    pub regular: bool,
}

/// The mathematical value of one listed entry:
/// `(path bytes, declared size, content bytes, regular?)`.
pub type ItemModel = (Seq<u8>, u64, Seq<u8>, bool);

impl View for ArchiveItem {
    type V = ItemModel;

    open spec fn view(&self) -> ItemModel {
        (self.path@, self.size, self.data@, self.regular)
    }
}

/// The models of a vector of listed entries, in order.
pub open spec fn items_model(items: Seq<ArchiveItem>) -> Seq<ItemModel> {
    items.map_values(|i: ArchiveItem| i@)
}

/// The entries of a tar stream, in write order, or `None` when the stream
/// is malformed. Every entry of the stream appears, whatever its type;
/// non-regular entries carry empty content. A pure function of the bytes.
pub uninterp spec fn tar_items_of(data: Seq<u8>) -> Option<Seq<ItemModel>>;

/// The entries readable from a zip stream via its local file headers, in
/// header order, up to the first unreadable header, or `None` when an
/// entry's content cannot be read. A pure function of the bytes.
pub uninterp spec fn zip_items_of(data: Seq<u8>) -> Option<Seq<ItemModel>>;

/// The full gzip decompression of a byte sequence, or `None` when it does
/// not decode. A pure function of the bytes.
pub uninterp spec fn gunzip_of(data: Seq<u8>) -> Option<Seq<u8>>;

/// Relies on the tar crate (`Archive::entries`): lists every entry of the
/// tar stream in write order, with its raw path bytes, the size declared
/// in its header, its content and its type; fails when the stream is
/// malformed. The outcome depends on the input bytes alone, which is what
/// lets it carry the name `tar_items_of`.
#[verifier::external_body]
pub(crate) fn tar_list(data: &[u8]) -> (r: Option<Vec<ArchiveItem>>)
    ensures
        r is Some <==> tar_items_of(data@) is Some,
        r matches Some(v) ==> Some(items_model(v@)) == tar_items_of(data@),
{
    let mut out = Vec::new();
    let mut archive = tar::Archive::new(data);
    let entries = match archive.entries() { Ok(e) => e, Err(_) => return None };
    for entry in entries {
        let mut entry = match entry { Ok(e) => e, Err(_) => return None };
        let regular = entry.header().entry_type() == tar::EntryType::Regular;
        let path = entry.path_bytes().to_vec();
        let size = match entry.header().size() { Ok(s) => s, Err(_) => return None };
        let mut buf = Vec::new();
        if entry.read_to_end(&mut buf).is_err() { return None; }
        out.push(ArchiveItem { path, size, data: buf, regular });
    }
    Some(out)
}

/// Relies on the zip crate (`read_zipfile_from_stream`): lists the entries
/// of a zip stream in local-header order with their decoded names, declared
/// uncompressed sizes, contents and file/non-file type; an unreadable
/// header ends the list, an unreadable content fails. The outcome depends
/// on the input bytes alone, which is what lets it carry the name
/// `zip_items_of`.
#[verifier::external_body]
pub(crate) fn zip_list(data: &[u8]) -> (r: Option<Vec<ArchiveItem>>)
    ensures
        r is Some <==> zip_items_of(data@) is Some,
        r matches Some(v) ==> Some(items_model(v@)) == zip_items_of(data@),
{
    let mut out = Vec::new();
    let mut reader = data;
    loop {
        let mut entry = match zip::read::read_zipfile_from_stream(&mut reader) {
            Ok(Some(e)) => e,
            _ => return Some(out),
        };
        let regular = entry.is_file();
        let path = entry.name().as_bytes().to_vec();
        let size = entry.size();
        let mut buf = Vec::new();
        if entry.read_to_end(&mut buf).is_err() { return None; }
        out.push(ArchiveItem { path, size, data: buf, regular });
    }
}

/// Relies on flate2's `GzDecoder`: the full decompression of the gzip
/// stream, or failure when it does not decode. The outcome depends on the
/// input bytes alone, which is what lets it carry the name `gunzip_of`.
#[verifier::external_body]
pub(crate) fn gunzip(data: &[u8]) -> (r: Option<Vec<u8>>)
    ensures
        r is Some <==> gunzip_of(data@) is Some,
        r matches Some(v) ==> Some(v@) == gunzip_of(data@),
{
    let mut buf = Vec::new();
    match flate2::read::GzDecoder::new(data).read_to_end(&mut buf) {
        Ok(_) => Some(buf),
        Err(_) => None,
    }
}

} // verus!
