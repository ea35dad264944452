//! The fixed five-column output schema and the writer settings the engine
//! requests from the persistence layer.

use vstd::prelude::*;

verus! {

/// The semantic type of one output column.
#[derive(Debug, Clone, Copy, PartialEq, Eq, Structural)]
pub enum ColumnType {
    /// Variable-length UTF-8 string.
    Utf8View,
    /// Unsigned 64-bit integer.
    UInt64,
    /// Fixed-size binary of 32 bytes: a SHA-256 digest.
    FixedSizeBinary32,
    /// Variable-length binary.
    BinaryView,
}

/// One column of the output schema.
#[derive(Debug, Clone)]
pub struct ColumnDesc {
    pub name: String,
    pub column_type: ColumnType,
    pub nullable: bool,
}

/// The whole output schema: five columns, in a fixed order.
#[derive(Debug, Clone)]
pub struct SchemaDesc {
    pub columns: Vec<ColumnDesc>,
}

/// The schema every batch of a run carries: `source`, `path`, `size`,
/// `hash`, `content`, in this order, all non-nullable; the content column
/// is text exactly when `only_text` is set. The schema is a function of
/// `only_text` alone, so all batches of one run carry the same schema.
pub open spec fn spec_schema(only_text: bool) -> Seq<(Seq<char>, ColumnType, bool)> {
    seq![
        ("source"@, ColumnType::Utf8View, false),
        ("path"@, ColumnType::Utf8View, false),
        ("size"@, ColumnType::UInt64, false),
        ("hash"@, ColumnType::FixedSizeBinary32, false),
        (
            "content"@,
            if only_text {
                ColumnType::Utf8View
            } else {
                ColumnType::BinaryView
            },
            false,
        ),
    ]
}

impl SchemaDesc {
    pub open spec fn matches(self, only_text: bool) -> bool {
        self.columns@.map_values(
            |c: ColumnDesc| (c.name@, c.column_type, c.nullable),
        ) == spec_schema(only_text)
    }
}

fn column(name: &str, column_type: ColumnType) -> (r: ColumnDesc)
    ensures
        r.name@ == name@,
        r.column_type == column_type,
        !r.nullable,
{
    ColumnDesc { name: name.to_owned(), column_type, nullable: false }
}

/// Build the output schema for a run: exactly the five columns of
/// `spec_schema(only_text)`.
pub fn make_schema(only_text: bool) -> (r: SchemaDesc)
    ensures
        r.matches(only_text),
{
    let content_type = if only_text {
        ColumnType::Utf8View
    } else {
        ColumnType::BinaryView
    };
    let mut columns: Vec<ColumnDesc> = Vec::new();
    columns.push(column("source", ColumnType::Utf8View));
    columns.push(column("path", ColumnType::Utf8View));
    columns.push(column("size", ColumnType::UInt64));
    columns.push(column("hash", ColumnType::FixedSizeBinary32));
    columns.push(column("content", content_type));
    let r = SchemaDesc { columns };
    proof {
        assert(r.columns@.map_values(
            |c: ColumnDesc| (c.name@, c.column_type, c.nullable),
        ) =~= spec_schema(only_text));
    }
    r
}

/// Writer configuration the engine requests: version 2.0 of the format,
/// bloom filters on `source`, `path` and `hash`, page statistics on
/// `source`, `path`, `size` and `hash`, dictionary encoding on `source`
/// and `path`, and a write-batch size of 1 MiB.
#[derive(Debug, Clone)]
pub struct WriterSettings {
    pub version_two: bool,
    pub bloom_filter_columns: Vec<String>,
    pub statistics_columns: Vec<String>,
    pub dictionary_columns: Vec<String>,
    pub write_batch_size: usize,
}

impl WriterSettings {
    pub open spec fn wf(self) -> bool {
        &&& self.version_two
        &&& self.bloom_filter_columns@.map_values(|s: String| s@)
            == seq!["source"@, "path"@, "hash"@]
        &&& self.statistics_columns@.map_values(|s: String| s@)
            == seq!["source"@, "path"@, "size"@, "hash"@]
        &&& self.dictionary_columns@.map_values(|s: String| s@)
            == seq!["source"@, "path"@]
        &&& self.write_batch_size == 1048576
    }
}

/// The writer settings of every run.
pub fn writer_settings() -> (r: WriterSettings)
    ensures
        r.wf(),
{
    let mut bloom: Vec<String> = Vec::new();
    bloom.push("source".to_owned());
    bloom.push("path".to_owned());
    bloom.push("hash".to_owned());
    let mut stats: Vec<String> = Vec::new();
    stats.push("source".to_owned());
    stats.push("path".to_owned());
    stats.push("size".to_owned());
    stats.push("hash".to_owned());
    let mut dict: Vec<String> = Vec::new();
    dict.push("source".to_owned());
    dict.push("path".to_owned());
    let r = WriterSettings {
        version_two: true,
        bloom_filter_columns: bloom,
        statistics_columns: stats,
        dictionary_columns: dict,
        write_batch_size: 1048576,
    };
    proof {
        assert(r.bloom_filter_columns@.map_values(|s: String| s@)
            =~= seq!["source"@, "path"@, "hash"@]);
        assert(r.statistics_columns@.map_values(|s: String| s@)
            =~= seq!["source"@, "path"@, "size"@, "hash"@]);
        assert(r.dictionary_columns@.map_values(|s: String| s@)
            =~= seq!["source"@, "path"@]);
    }
    r
}

} // verus!
