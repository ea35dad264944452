//! End-to-end extraction scenarios: single archives of each format, size
//! gating, one-level recursion, and cross-archive deduplication.

use std::io::Write;

use archive_to_parquet::{
    ArchiveFormat, Compression, Counts, ExtractionOptions, Extractor, Record,
};
use sha2::Digest;

type ArchiveContents<'a> = (ArchiveFormat, &'a str, Vec<(&'a str, Vec<u8>)>);

fn default_opts() -> ExtractionOptions {
    ExtractionOptions {
        min_file_size: 1,
        max_file_size: None,
        max_depth: None,
        only_text: false,
        threads: 1,
        unique: false,
        ignore_unsupported: false,
        compression: Compression::Uncompressed,
    }
}

fn make_zip_file(contents: &[(&str, Vec<u8>)]) -> Vec<u8> {
    let options = zip::write::SimpleFileOptions::default()
        .compression_method(zip::CompressionMethod::Stored);
    let mut a = zip::write::ZipWriter::new(std::io::Cursor::new(Vec::new()));
    for (name, data) in contents.iter() {
        a.start_file(*name, options).unwrap();
        a.write_all(data.as_slice()).unwrap();
    }
    a.finish().unwrap().into_inner()
}

fn make_tar_file(contents: &[(&str, Vec<u8>)]) -> Vec<u8> {
    let mut a = tar::Builder::new(Vec::new());
    for (name, data) in contents.iter() {
        let mut header = tar::Header::new_gnu();
        header.set_size(data.len() as u64);
        a.append_data(&mut header, name, data.as_slice()).unwrap();
    }
    a.into_inner().unwrap()
}

fn gzip_bytes(data: &[u8]) -> Vec<u8> {
    let mut e = flate2::write::GzEncoder::new(Vec::new(), flate2::Compression::fast());
    e.write_all(data).unwrap();
    e.finish().unwrap()
}

fn make_archive(format: ArchiveFormat, files: &[(&str, Vec<u8>)]) -> Vec<u8> {
    match format {
        ArchiveFormat::Tar => make_tar_file(files),
        ArchiveFormat::TarGz => gzip_bytes(make_tar_file(files).as_slice()),
        ArchiveFormat::Zip => make_zip_file(files),
    }
}

fn make_extractor(opts: ExtractionOptions, archives: Vec<ArchiveContents>) -> Extractor {
    let mut extractor = Extractor::new(opts);
    for (format, name, files) in archives.iter() {
        let data = make_archive(*format, files.as_slice());
        extractor.add_reader((*name).to_string(), data, *format);
    }
    extractor
}

fn assert_extraction(
    mut extractor: Extractor,
    read: usize,
    skipped: usize,
    deduplicated: usize,
    written: usize,
) -> Vec<Record> {
    let count = extractor.extract().unwrap();
    assert_eq!(count, Counts { read, skipped, deduplicated, written });
    extractor.finish().unwrap()
}

fn row_key(r: &Record) -> (String, String, u64, Vec<u8>, Vec<u8>) {
    (
        r.source.clone(),
        r.path.clone(),
        r.size,
        r.hash.clone(),
        r.content.clone(),
    )
}

fn assert_contents(rows: Vec<Record>, expected: Vec<ArchiveContents>) {
    let mut got: Vec<(String, String, u64, Vec<u8>, Vec<u8>)> =
        rows.iter().map(row_key).collect();
    let mut want: Vec<(String, String, u64, Vec<u8>, Vec<u8>)> = Vec::new();
    for (_, name, files) in expected.iter() {
        for (path, data) in files.iter() {
            let digest = sha2::Sha256::digest(data.as_slice()).to_vec();
            want.push((
                (*name).to_string(),
                (*path).to_string(),
                data.len() as u64,
                digest,
                data.clone(),
            ));
        }
    }
    got.sort();
    want.sort();
    assert_eq!(got, want);
}

fn b(data: &str) -> Vec<u8> {
    data.as_bytes().to_vec()
}

fn test_simple(format: ArchiveFormat, name: &str) {
    let archives = vec![(format, name, vec![("hello-world.txt", b("hello world"))])];
    let extractor = make_extractor(default_opts(), archives.clone());
    assert_eq!(extractor.input_file_count(), 1);
    let contents = assert_extraction(extractor, 1, 0, 0, 1);
    assert_contents(contents, archives);

    let archives = vec![(format, name, vec![("hello-world.txt", b("hello world"))])];
    let extractor = make_extractor(
        ExtractionOptions { min_file_size: 1000, ..default_opts() },
        archives,
    );
    assert_eq!(extractor.input_file_count(), 1);
    let contents = assert_extraction(extractor, 1, 1, 0, 0);
    assert_contents(contents, vec![]);
}

#[test]
fn test_simple_tar() {
    test_simple(ArchiveFormat::Tar, "test.tar");
}

#[test]
fn test_simple_tar_gz() {
    test_simple(ArchiveFormat::TarGz, "test.tar.gz");
}

#[test]
fn test_simple_tar_zip() {
    test_simple(ArchiveFormat::Zip, "test.zip");
}

#[test]
fn test_nested() {
    let inner_contents = vec![
        (
            "test.zip",
            make_zip_file(&[("hello-world.txt", b("hello world 1"))]),
        ),
        (
            "test.tar",
            make_tar_file(&[("hello-world.txt", b("hello world 2"))]),
        ),
    ];

    for kind in [ArchiveFormat::Tar, ArchiveFormat::TarGz, ArchiveFormat::Zip] {
        let archives = vec![(kind, "archive", inner_contents.clone())];
        let extractor = make_extractor(
            ExtractionOptions { max_depth: Some(1), unique: false, ..default_opts() },
            archives,
        );
        assert_eq!(extractor.input_file_count(), 1);
        let contents = assert_extraction(extractor, 2, 0, 0, 2);
        assert_contents(
            contents,
            vec![
                (
                    kind,
                    "archive/test.zip",
                    vec![("hello-world.txt", b("hello world 1"))],
                ),
                (
                    kind,
                    "archive/test.tar",
                    vec![("hello-world.txt", b("hello world 2"))],
                ),
            ],
        );
    }
}

#[test]
fn test_removes_duplicates() {
    let contents = vec![
        ("hello.txt", b("hello world")),
        ("hello2.txt", b("hello world")),
    ];
    let extractor = make_extractor(
        ExtractionOptions { unique: true, ..default_opts() },
        vec![
            (ArchiveFormat::Tar, "test1.tar", contents.clone()),
            (ArchiveFormat::Tar, "test2.tar", contents.clone()),
        ],
    );
    assert_eq!(extractor.input_file_count(), 2);
    let contents = assert_extraction(extractor, 4, 0, 3, 1);
    assert_contents(
        contents,
        vec![(
            ArchiveFormat::Tar,
            "test1.tar",
            vec![("hello.txt", b("hello world"))],
        )],
    );
}

#[test]
fn test_same_content_across_formats() {
    for (format, name) in [
        (ArchiveFormat::Tar, "test.tar"),
        (ArchiveFormat::TarGz, "test.tar.gz"),
        (ArchiveFormat::Zip, "test.zip"),
    ] {
        let archives = vec![(format, name, vec![("a.txt", b("same payload"))])];
        let extractor = make_extractor(default_opts(), archives.clone());
        let rows = assert_extraction(extractor, 1, 0, 0, 1);
        assert_contents(rows, archives);
    }
}

#[test]
fn test_only_text_gating() {
    let files = vec![
        ("text.txt", b("plain text here")),
        ("binary.bin", vec![0x00u8, 0xFF, 0xFE, 0xFD, 0x01, 0x02]),
    ];
    let archives = vec![(ArchiveFormat::Tar, "mix.tar", files)];
    let extractor = make_extractor(
        ExtractionOptions { only_text: true, ..default_opts() },
        archives,
    );
    let rows = assert_extraction(extractor, 2, 1, 0, 1);
    assert_eq!(rows.len(), 1);
    assert_eq!(rows[0].path, "text.txt");
    assert_eq!(rows[0].content, b("plain text here"));
    assert!(String::from_utf8(rows[0].content.clone()).is_ok());
}

#[test]
fn test_max_size_gate() {
    let files = vec![
        ("small.txt", b("ok")),
        ("large.txt", b("this entry is far too large for the bound")),
    ];
    let archives = vec![(ArchiveFormat::Tar, "sizes.tar", files)];
    let extractor = make_extractor(
        ExtractionOptions { max_file_size: Some(10), ..default_opts() },
        archives,
    );
    let rows = assert_extraction(extractor, 2, 1, 0, 1);
    assert_eq!(rows[0].path, "small.txt");
}

#[test]
fn test_idempotent_double_extraction() {
    // Extracting the same input twice under `unique` deduplicates back
    // to the single-run rows.
    let files = vec![("a.txt", b("payload one")), ("b.txt", b("payload two"))];
    let single = make_extractor(
        ExtractionOptions { unique: true, ..default_opts() },
        vec![(ArchiveFormat::Tar, "one.tar", files.clone())],
    );
    let single_rows = assert_extraction(single, 2, 0, 0, 2);

    let double = make_extractor(
        ExtractionOptions { unique: true, ..default_opts() },
        vec![
            (ArchiveFormat::Tar, "one.tar", files.clone()),
            (ArchiveFormat::Tar, "two.tar", files.clone()),
        ],
    );
    let double_rows = assert_extraction(double, 4, 0, 2, 2);

    let single_hashes: Vec<Vec<u8>> = single_rows.iter().map(|r| r.hash.clone()).collect();
    let double_hashes: Vec<Vec<u8>> = double_rows.iter().map(|r| r.hash.clone()).collect();
    assert_eq!(single_hashes, double_hashes);
}

#[test]
fn test_accounting_identity() {
    // read >= written + skipped + deduplicated over a mixed run.
    let files = vec![
        ("tiny.txt", b("x")),
        ("a.txt", b("same bytes in two files")),
        ("b.txt", b("same bytes in two files")),
    ];
    let extractor = make_extractor(
        ExtractionOptions { min_file_size: 2, unique: true, ..default_opts() },
        vec![(ArchiveFormat::Tar, "acct.tar", files)],
    );
    let count = extractor_counts(extractor);
    assert!(count.read >= count.written + count.skipped + count.deduplicated);
    assert_eq!(count, Counts { read: 3, skipped: 1, deduplicated: 1, written: 1 });
}

fn extractor_counts(mut extractor: Extractor) -> Counts {
    extractor.extract().unwrap()
}

#[test]
fn test_round_trip_text_concatenation() {
    // With text gating on and deduplication off, concatenating the
    // emitted contents reproduces the UTF-8 entries' bytes in order.
    let files = vec![
        ("1.txt", b("alpha ")),
        ("2.bin", vec![0xFFu8, 0xFE, 0xFD, 0x00, 0x01]),
        ("3.txt", b("beta")),
    ];
    let archives = vec![(ArchiveFormat::Tar, "cat.tar", files)];
    let mut extractor = make_extractor(
        ExtractionOptions { only_text: true, ..default_opts() },
        archives,
    );
    extractor.extract().unwrap();
    let rows = extractor.finish().unwrap();
    let concatenated: Vec<u8> = rows.iter().flat_map(|r| r.content.clone()).collect();
    assert_eq!(concatenated, b("alpha beta"));
}

#[test]
fn test_ignore_unsupported_inputs() {
    // With ignore_unsupported set, an undetectable input simply drops
    // out, and the emitted rows equal those of the detectable inputs.
    let tar_data = make_tar_file(&[("keep.txt", b("kept content"))]);
    let mut with_junk = Extractor::new(ExtractionOptions {
        ignore_unsupported: true,
        ..default_opts()
    });
    with_junk.add_buffer("good.tar".to_string(), tar_data.clone()).unwrap();
    with_junk
        .add_buffer("junk.bin".to_string(), b"no archive signature here xxxxxx".to_vec())
        .unwrap();
    assert_eq!(with_junk.input_file_count(), 1);
    with_junk.extract().unwrap();
    let junk_rows = with_junk.finish().unwrap();

    let mut only_good = Extractor::new(default_opts());
    only_good.add_buffer("good.tar".to_string(), tar_data).unwrap();
    only_good.extract().unwrap();
    let good_rows = only_good.finish().unwrap();

    let a: Vec<_> = junk_rows.iter().map(row_key).collect();
    let c: Vec<_> = good_rows.iter().map(row_key).collect();
    assert_eq!(a, c);
}

#[test]
fn test_add_buffer_duplicate_label() {
    let tar_data = make_tar_file(&[("f.txt", b("contents of f"))]);
    let mut extractor = Extractor::new(default_opts());
    extractor.add_buffer("same".to_string(), tar_data.clone()).unwrap();
    extractor.add_buffer("same".to_string(), tar_data).unwrap();
    assert_eq!(extractor.input_file_count(), 1);
}

#[test]
fn test_malformed_input_reports_io_error() {
    // A declared tar that is not one aborts that input with an I/O error;
    // other inputs still run and their rows stay written.
    let good = make_tar_file(&[("ok.txt", b("good bytes"))]);
    let mut extractor = Extractor::new(default_opts());
    extractor.add_reader("bad.tar".to_string(), vec![0x42u8; 600], ArchiveFormat::Tar);
    extractor.add_reader("good.tar".to_string(), good, ArchiveFormat::Tar);
    let r = extractor.extract();
    assert_eq!(r, Err(archive_to_parquet::ExtractError::Io));
    let rows = extractor.finish().unwrap();
    assert_eq!(rows.len(), 1);
    assert_eq!(rows[0].source, "good.tar");
}

#[test]
fn test_depth_limit_emits_opaque_archive() {
    // With one level of recursion budget, a nested archive one level
    // down is descended into, but an archive two levels down is emitted
    // as an ordinary (opaque) record.
    let innermost = make_tar_file(&[("leaf.txt", b("leaf contents").clone())]);
    let mid = make_tar_file(&[("inner.tar", innermost.clone())]);
    let mut extractor = Extractor::new(ExtractionOptions {
        max_depth: Some(1),
        ..default_opts()
    });
    extractor.add_reader("archive".to_string(), make_tar_file(&[("mid.tar", mid)]),
        ArchiveFormat::Tar);
    let counts = extractor.extract().unwrap();
    assert_eq!(counts, Counts { read: 1, skipped: 0, deduplicated: 0, written: 1 });
    let rows = extractor.finish().unwrap();
    assert_eq!(rows.len(), 1);
    assert_eq!(rows[0].source, "archive/mid.tar");
    assert_eq!(rows[0].path, "inner.tar");
    assert_eq!(rows[0].content, innermost);
}

#[test]
fn test_many_entries_flush_across_batches() {
    // More entries than one batch holds: batches flush at the row cap,
    // and a duplicate that lands in a later batch is still caught by the
    // cross-batch scope.
    let mut files: Vec<(String, Vec<u8>)> = Vec::new();
    for i in 0..1030u32 {
        let content = if i == 1029 {
            "entry number 0".to_string()
        } else {
            format!("entry number {i}")
        };
        files.push((format!("f{i}.txt"), content.into_bytes()));
    }
    let borrowed: Vec<(&str, Vec<u8>)> =
        files.iter().map(|(n, d)| (n.as_str(), d.clone())).collect();
    let data = make_tar_file(&borrowed);
    let mut extractor = Extractor::new(ExtractionOptions { unique: true, ..default_opts() });
    extractor.add_reader("big.tar".to_string(), data, ArchiveFormat::Tar);
    let counts = extractor.extract().unwrap();
    assert_eq!(counts, Counts { read: 1030, skipped: 0, deduplicated: 1, written: 1029 });
    let rows = extractor.finish().unwrap();
    assert_eq!(rows.len(), 1029);
}
