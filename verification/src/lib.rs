//! Extraction engine that turns collections of archives (tar, tar.gz, zip,
//! optionally nested) into rows of a fixed five-column table: for every
//! regular file found in an archive it records the originating input, the
//! internal path, the byte size, the SHA-256 digest of the content, and the
//! content itself (raw bytes, or text when text gating is on).
//!
//! The engine works on in-memory byte buffers; opening files, walking
//! directories and persisting the rows as a parquet file are left to the
//! surrounding binary.

pub mod options;
pub mod counts;
pub mod digest;
pub mod text;
pub mod record;
pub mod schema;
pub mod formats;
pub mod archive;
pub mod model;
pub mod dedup;
pub mod laws;
pub mod output;
pub mod batch;
pub mod extract;
pub mod extraction;
pub mod progress;
pub mod entry;

pub use batch::Items;
pub use counts::Counts;
pub use entry::{EntryDetails, FileEntry};
pub use extraction::{Content, Extractor, InputContents, InputError};
pub use formats::{ArchiveFormat, FormatError};
pub use options::{Compression, ExtractionOptions};
pub use output::{Batch, ExtractError, OutputWriter};
pub use progress::{Counters, OutputCounter, WriteBatchOutput};
pub use record::Record;
pub use schema::{make_schema, writer_settings, ColumnType, SchemaDesc, WriterSettings};
