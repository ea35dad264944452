//! Component-level checks: format detection, the schema, counters, the
//! writer lifecycle, the outside-crate wrappers, and the small entry and
//! progress types.

use std::io::Write;

use archive_to_parquet::{
    text, ArchiveFormat, Batch, ColumnType, Compression, Counters, Counts, EntryDetails,
    ExtractError, ExtractionOptions, Extractor, FileEntry, FormatError, InputContents,
    OutputCounter, OutputWriter, Record, WriteBatchOutput,
};
use sha2::Digest;

fn opts() -> ExtractionOptions {
    ExtractionOptions {
        min_file_size: 1,
        max_file_size: None,
        max_depth: None,
        only_text: false,
        threads: 1,
        unique: false,
        ignore_unsupported: false,
        compression: Compression::Zstd,
    }
}

fn tar_bytes(files: &[(&str, &[u8])]) -> Vec<u8> {
    let mut a = tar::Builder::new(Vec::new());
    for (name, data) in files.iter() {
        let mut header = tar::Header::new_gnu();
        header.set_size(data.len() as u64);
        a.append_data(&mut header, name, *data).unwrap();
    }
    a.into_inner().unwrap()
}

fn zip_bytes(files: &[(&str, &[u8])]) -> Vec<u8> {
    let options = zip::write::SimpleFileOptions::default()
        .compression_method(zip::CompressionMethod::Stored);
    let mut a = zip::write::ZipWriter::new(std::io::Cursor::new(Vec::new()));
    for (name, data) in files.iter() {
        a.start_file(*name, options).unwrap();
        a.write_all(data).unwrap();
    }
    a.finish().unwrap().into_inner()
}

fn gz_bytes(data: &[u8]) -> Vec<u8> {
    let mut e = flate2::write::GzEncoder::new(Vec::new(), flate2::Compression::fast());
    e.write_all(data).unwrap();
    e.finish().unwrap()
}

#[test]
fn test_detect_type_tar() {
    let data = tar_bytes(&[("x", b"abc")]);
    assert_eq!(ArchiveFormat::detect_type(&data, &opts()), Ok(ArchiveFormat::Tar));
}

#[test]
fn test_detect_type_tar_gz() {
    let data = gz_bytes(&tar_bytes(&[("x", b"abc")]));
    assert_eq!(ArchiveFormat::detect_type(&data, &opts()), Ok(ArchiveFormat::TarGz));
}

#[test]
fn test_detect_type_zip() {
    let data = zip_bytes(&[("x", b"abc")]);
    assert_eq!(ArchiveFormat::detect_type(&data, &opts()), Ok(ArchiveFormat::Zip));
}

#[test]
fn test_detect_type_empty() {
    assert_eq!(
        ArchiveFormat::detect_type(&[], &opts()),
        Err(FormatError::Empty),
    );
}

#[test]
fn test_detect_type_unsupported() {
    assert_eq!(
        ArchiveFormat::detect_type(b"just some plain text", &opts()),
        Err(FormatError::UnsupportedFormat),
    );
}

#[test]
fn test_detect_type_below_min_size() {
    let o = ExtractionOptions { min_file_size: 1000, ..opts() };
    let data = tar_bytes(&[("x", b"abc")]);
    // The window is at most 280 bytes, so a 1000-byte floor rejects all.
    assert_eq!(ArchiveFormat::detect_type(&data, &o), Err(FormatError::UnsupportedFormat));
}

#[test]
fn test_detect_type_plain_gzip_is_unsupported() {
    // Gzip of something that is not tar is not a supported container.
    let data = gz_bytes(b"some plain file contents, definitely not tar");
    assert_eq!(
        ArchiveFormat::detect_type(&data, &opts()),
        Err(FormatError::UnsupportedFormat),
    );
}

#[test]
fn test_detect_type_corrupt_gzip_is_io() {
    let mut data = vec![0x1fu8, 0x8b, 0x08];
    data.extend_from_slice(&[0x42u8; 40]);
    assert_eq!(ArchiveFormat::detect_type(&data, &opts()), Err(FormatError::Io));
}

#[test]
fn test_schema_binary() {
    let s = archive_to_parquet::make_schema(false);
    let names: Vec<&str> = s.columns.iter().map(|c| c.name.as_str()).collect();
    assert_eq!(names, vec!["source", "path", "size", "hash", "content"]);
    assert_eq!(s.columns[2].column_type, ColumnType::UInt64);
    assert_eq!(s.columns[3].column_type, ColumnType::FixedSizeBinary32);
    assert_eq!(s.columns[4].column_type, ColumnType::BinaryView);
    assert!(s.columns.iter().all(|c| !c.nullable));
}

#[test]
fn test_schema_text() {
    let s = archive_to_parquet::make_schema(true);
    assert_eq!(s.columns.len(), 5);
    assert_eq!(s.columns[4].column_type, ColumnType::Utf8View);
    assert_eq!(s.columns[0].column_type, ColumnType::Utf8View);
}

#[test]
fn test_writer_settings() {
    let w = archive_to_parquet::writer_settings();
    assert!(w.version_two);
    assert_eq!(w.bloom_filter_columns, vec!["source", "path", "hash"]);
    assert_eq!(w.statistics_columns, vec!["source", "path", "size", "hash"]);
    assert_eq!(w.dictionary_columns, vec!["source", "path"]);
    assert_eq!(w.write_batch_size, 1024 * 1024);
}

#[test]
fn test_counts_constructors() {
    assert_eq!(
        Counts::new_processed(),
        Counts { read: 1, skipped: 0, deduplicated: 0, written: 1 },
    );
    assert_eq!(
        Counts::new_skipped(),
        Counts { read: 1, skipped: 1, deduplicated: 0, written: 0 },
    );
    assert_eq!(
        Counts::new_deduplicated(7),
        Counts { read: 0, skipped: 0, deduplicated: 7, written: 0 },
    );
}

#[test]
fn test_counts_skipped_and_plus() {
    let mut c = Counts::default();
    c.skipped();
    assert_eq!(c, Counts { read: 1, skipped: 1, deduplicated: 0, written: 0 });
    let d = c.plus(Counts::new_processed());
    assert_eq!(d, Counts { read: 2, skipped: 1, deduplicated: 0, written: 1 });
    let mut e = d;
    e.accumulate(Counts::new_deduplicated(2));
    assert_eq!(e, Counts { read: 2, skipped: 1, deduplicated: 2, written: 1 });
}

#[test]
fn test_counts_plus_saturates() {
    let big = Counts { read: usize::MAX, skipped: 0, deduplicated: 0, written: 0 };
    let sum = big.plus(Counts::new_processed());
    assert_eq!(sum.read, usize::MAX);
    assert_eq!(sum.written, 1);
}

#[test]
fn test_check_file_size() {
    let o = ExtractionOptions { min_file_size: 10, max_file_size: Some(20), ..opts() };
    assert!(!o.check_file_size(0));
    assert!(!o.check_file_size(9));
    assert!(o.check_file_size(10));
    assert!(o.check_file_size(20));
    assert!(!o.check_file_size(21));
}

#[test]
fn test_decrement_max_depth() {
    let o = ExtractionOptions { max_depth: Some(2), ..opts() };
    let d1 = o.decrement_max_depth();
    assert_eq!(d1.max_depth, Some(1));
    let d2 = d1.decrement_max_depth();
    assert_eq!(d2.max_depth, None);
}

#[test]
fn test_sha256_known_vector_through_extraction() {
    // The first bytes of SHA-256("hello world") are b9 4d 27 b9; a row's
    // hash must carry the real digest of its content.
    let tar = tar_bytes(&[("hw.txt", b"hello world")]);
    let mut ex = Extractor::new(opts());
    ex.add_reader("t.tar".to_string(), tar, ArchiveFormat::Tar);
    ex.extract().unwrap();
    let rows = ex.finish().unwrap();
    assert_eq!(rows[0].hash[..4], [0xb9u8, 0x4d, 0x27, 0xb9]);
    assert_eq!(rows[0].hash.len(), 32);
}

#[test]
fn test_join_path() {
    assert_eq!(text::join_path("archive", "inner.tar"), "archive/inner.tar");
    assert_eq!(text::join_path("", "inner.tar"), "inner.tar");
    assert_eq!(text::join_path("archive", "/abs.txt"), "/abs.txt");
}

#[test]
fn test_entry_listing_through_extraction() {
    // Paths, declared sizes and contents of both container formats come
    // through the pipeline unchanged.
    let tar = tar_bytes(&[("a.txt", b"alpha"), ("b.txt", b"beta!")]);
    let zip = zip_bytes(&[("dir/file.txt", b"zipped bytes")]);
    let mut ex = Extractor::new(opts());
    ex.add_reader("t.tar".to_string(), tar, ArchiveFormat::Tar);
    ex.add_reader("z.zip".to_string(), zip, ArchiveFormat::Zip);
    ex.extract().unwrap();
    let rows = ex.finish().unwrap();
    assert_eq!(rows.len(), 3);
    assert_eq!(rows[0].path, "a.txt");
    assert_eq!(rows[0].size, 5);
    assert_eq!(rows[0].content, b"alpha".to_vec());
    assert_eq!(rows[1].content, b"beta!".to_vec());
    assert_eq!(rows[2].path, "dir/file.txt");
    assert_eq!(rows[2].size, 12);
    assert_eq!(rows[2].content, b"zipped bytes".to_vec());
}

#[test]
fn test_gunzip_through_extraction() {
    // A gzip-compressed tar round-trips: the emitted content is the
    // original entry's bytes, not the compressed form.
    let payload = b"round trip payload for the gzip layer".to_vec();
    let data = gz_bytes(&tar_bytes(&[("p.bin", payload.as_slice())]));
    let mut ex = Extractor::new(opts());
    ex.add_reader("p.tar.gz".to_string(), data, ArchiveFormat::TarGz);
    ex.extract().unwrap();
    let rows = ex.finish().unwrap();
    assert_eq!(rows.len(), 1);
    assert_eq!(rows[0].content, payload);
}

#[test]
fn test_writer_closed_behavior() {
    let mut w = OutputWriter::new(opts());
    let first = w.finish().unwrap();
    assert!(first.is_empty());
    assert!(matches!(w.finish(), Err(ExtractError::WriterClosed)));
    let batch = Batch { rows: Vec::new() };
    assert_eq!(w.write_items(batch), Err(ExtractError::WriterClosed));
}

#[test]
fn test_writer_cross_batch_dedup() {
    let o = ExtractionOptions { unique: true, ..opts() };
    let mut w = OutputWriter::new(o);
    let row = |path: &str, content: &[u8]| Record {
        source: "s".to_string(),
        path: path.to_string(),
        size: content.len() as u64,
        hash: sha2::Sha256::digest(content).to_vec(),
        content: content.to_vec(),
    };
    let n1 = w
        .write_items(Batch { rows: vec![row("a", b"one"), row("b", b"two")] })
        .unwrap();
    assert_eq!(n1, 2);
    let n2 = w
        .write_items(Batch { rows: vec![row("c", b"one"), row("d", b"three")] })
        .unwrap();
    assert_eq!(n2, 1);
    let counts = w.counts();
    assert_eq!(counts.written, 3);
    assert_eq!(counts.deduplicated, 1);
    let rows = w.finish().unwrap();
    let paths: Vec<&str> = rows.iter().map(|r| r.path.as_str()).collect();
    assert_eq!(paths, vec!["a", "b", "d"]);
}

#[test]
fn test_input_contents_registry() {
    let mut reg = InputContents::new();
    assert!(reg.is_empty());
    let tar = tar_bytes(&[("f", b"archive body")]);
    reg.add_buffer("one".to_string(), tar.clone(), &opts()).unwrap();
    assert_eq!(reg.len(), 1);
    assert!(reg.input_path_exists(&"one".to_string()));
    assert!(!reg.input_path_exists(&"two".to_string()));
    let err = reg.add_buffer("junk".to_string(), b"not an archive at all".to_vec(), &opts());
    let e = err.unwrap_err();
    assert_eq!(e.error, FormatError::UnsupportedFormat);
    assert_eq!(e.path, "junk");
    let empty_err = reg.add_buffer("empty".to_string(), Vec::new(), &opts()).unwrap_err();
    assert_eq!(empty_err.error, FormatError::Empty);
    let drained = reg.contents_sequential();
    assert_eq!(drained.len(), 1);
    assert!(reg.is_empty());
}

#[test]
fn test_add_buffer_corrupt_gzip_is_io_error() {
    let mut reg = InputContents::new();
    let mut data = vec![0x1fu8, 0x8b, 0x08];
    data.extend_from_slice(&[0x42u8; 40]);
    let e = reg.add_buffer("broken.gz".to_string(), data, &opts()).unwrap_err();
    assert_eq!(e.error, FormatError::Io);
    assert!(reg.is_empty());
}

#[test]
fn test_file_entry_from_plain_bytes() {
    let e = FileEntry::from_bytes("notes.txt".to_string(), b"just notes".to_vec(), &opts());
    assert_eq!(e.format(), None);
    assert!(!e.supports_recursion());
    assert_eq!(e.size(), 10);
}

#[test]
fn test_entry_details_and_file_entry() {
    let d = EntryDetails::new("p.txt".to_string(), 11);
    assert_eq!(d.path, "p.txt");
    assert_eq!(d.size, 11);

    let tar = tar_bytes(&[("f", b"body bytes")]);
    let e = FileEntry::from_bytes("arc.tar".to_string(), tar.clone(), &opts());
    assert_eq!(e.path().as_str(), "arc.tar");
    assert_eq!(e.size(), tar.len() as u64);
    assert_eq!(e.format(), Some(ArchiveFormat::Tar));
    assert!(e.supports_recursion());
    assert_eq!(e.details().size, tar.len() as u64);
    let (details, format, data) = e.into_components();
    assert_eq!(details.path, "arc.tar");
    assert_eq!(format, Some(ArchiveFormat::Tar));
    assert_eq!(data, tar);

    let plain = FileEntry::new("plain".to_string(), 4, None, b"text".to_vec());
    assert!(!plain.supports_recursion());
}

#[test]
fn test_progress_counters() {
    let mut c = Counters::default();
    c.read_archive();
    c.read_entry(100);
    c.read_entry(50);
    c.sent_batch();
    assert_eq!(c.archives_read, 1);
    assert_eq!(c.entries_read, 2);
    assert_eq!(c.entries_read_bytes, 150);
    assert_eq!(c.batches_sent, 1);

    let mut o = OutputCounter::default();
    o.batch_handled(WriteBatchOutput { num_rows: 10, bytes: 2048 }, 3);
    o.batch_handled(WriteBatchOutput { num_rows: 5, bytes: 1024 }, 1);
    assert_eq!(o.output_rows, 15);
    assert_eq!(o.output_bytes, 3072);
    assert_eq!(o.batches_pending, 1);
}

#[test]
fn test_record_hash_matches_content() {
    let tar = tar_bytes(&[("x.txt", b"verify the digest")]);
    let mut ex = archive_to_parquet::Extractor::new(opts());
    ex.add_reader("t.tar".to_string(), tar, ArchiveFormat::Tar);
    ex.extract().unwrap();
    let rows = ex.finish().unwrap();
    assert_eq!(rows.len(), 1);
    assert_eq!(rows[0].hash, sha2::Sha256::digest(b"verify the digest").to_vec());
    assert_eq!(rows[0].hash.len(), 32);
}
