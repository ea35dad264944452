//! A single file held in memory together with what is known about it:
//! its label, its size, and — when it is itself an archive — its format.

use vstd::prelude::*;
use crate::formats::{spec_detect, ArchiveFormat};
use crate::options::ExtractionOptions;

verus! {

/// The details of a [`FileEntry`]: its path label and its size in bytes.
#[derive(Debug, Clone, PartialEq, Eq)]
pub struct EntryDetails {
    pub path: String,
    pub size: u64,
}

impl EntryDetails {
    pub fn new(path: String, size: u64) -> (r: EntryDetails)
        ensures
            r.path == path,
            r.size == size,
    {
        EntryDetails { path, size }
    }
}

/// A file held in memory, with its detected container format (`None` when
/// it is not a recognized archive). It can be handed to the extraction
/// pipeline, or read as plain bytes.
#[derive(Debug, Clone)]
pub struct FileEntry {
    pub details: EntryDetails,
    pub format: Option<ArchiveFormat>,
    pub data: Vec<u8>,
}

impl FileEntry {
    pub fn new(path: String, size: u64, format: Option<ArchiveFormat>, data: Vec<u8>) -> (r:
        FileEntry)
        ensures
            r.details.path == path,
            r.details.size == size,
            r.format == format,
            r.data == data,
    {
        FileEntry { details: EntryDetails { path, size }, format, data }
    }

    /// Build an entry from a buffer, detecting its format under the
    /// run's minimum-size rule; an undetectable buffer is a plain file.
    pub fn from_bytes(path: String, data: Vec<u8>, options: &ExtractionOptions) -> (r:
        FileEntry)
        ensures
            r.details.path == path,
            r.details.size == data@.len(),
            r.data == data,
            r.format == (match spec_detect(data@, options.min_file_size) {
                Ok(f) => Some(f),
                Err(_) => None::<ArchiveFormat>,
            }),
    {
        let size = data.len() as u64;
        let format = match ArchiveFormat::detect_type(data.as_slice(), options) {
            Ok(f) => Some(f),
            Err(_) => None,
        };
        FileEntry { details: EntryDetails { path, size }, format, data }
    }

    /// Split the entry into its details, its format, and its bytes.
    pub fn into_components(self) -> (r: (EntryDetails, Option<ArchiveFormat>, Vec<u8>))
        ensures
            r.0 == self.details,
            r.1 == self.format,
            r.2 == self.data,
    {
        (self.details, self.format, self.data)
    }

    /// The entry's details.
    pub fn details(&self) -> (r: &EntryDetails)
        ensures
            r == self.details,
    {
        &self.details
    }

    /// The entry's path label.
    pub fn path(&self) -> (r: &String)
        ensures
            r == self.details.path,
    {
        &self.details.path
    }

    /// The entry's size in bytes.
    pub fn size(&self) -> (r: u64)
        ensures
            r == self.details.size,
    {
        self.details.size
    }

    /// Whether the extraction pipeline can descend into this entry.
    pub fn supports_recursion(&self) -> (r: bool)
        ensures
            r == (self.format is Some),
    {
        self.format.is_some()
    }

    /// The entry's detected format, if any.
    pub fn format(&self) -> (r: Option<ArchiveFormat>)
        ensures
            r == self.format,
    {
        self.format
    }
}

} // verus!
