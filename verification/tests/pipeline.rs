//! End-to-end exercises of the scan pipeline against a real SQLite store.
use filecat::catalog::{Database, PipelineError};
use filecat::hashing::hash_bytes;
use filecat::models::FileEntry;
use filecat::writer::{BatchWriter, ScanStatus};

fn record(path: &str, content: &[u8]) -> FileEntry {
    FileEntry::new(
        path.to_string(),
        content.len() as u64,
        1_600_000_000,
        1_600_000_001,
        hash_bytes(content),
    )
}

fn fresh_db() -> Database {
    let db = Database::new(":memory:").expect("open in-memory store");
    db.init().expect("create schema");
    db
}

#[test]
fn three_files_of_known_sizes() {
    let db = fresh_db();
    let mut writer = BatchWriter::new(db, 1000, 10);
    let contents: [Vec<u8>; 3] = [Vec::new(), vec![7u8; 100], vec![42u8; 5_000_000]];
    for (i, content) in contents.iter().enumerate() {
        let entry = record(&format!("/data/file{}", i), content);
        writer.on_record(entry).expect("no commit yet");
    }
    let summary = writer.finish().expect("final flush");
    assert_eq!(summary.total, 3);
    assert_eq!(summary.catalog.row_count().unwrap(), 3);
    let empty = summary
        .catalog
        .find_by_path("/data/file0")
        .unwrap()
        .expect("empty file cataloged");
    assert_eq!(empty.size_bytes, 0);
    // The well-known fingerprint of empty content.
    assert_eq!(empty.md5_hash, "d41d8cd98f00b204e9800998ecf8427e");
    let big = summary
        .catalog
        .find_by_path("/data/file2")
        .unwrap()
        .expect("large file cataloged");
    assert_eq!(big.size_bytes, 5_000_000);
}

#[test]
fn batch_threshold_gives_three_transactions() {
    let db = fresh_db();
    let mut writer = BatchWriter::new(db, 1000, 10);
    for i in 0..2500u32 {
        let entry = record(&format!("/tree/f{}", i), format!("content {}", i).as_bytes());
        writer.on_record(entry).expect("records accepted");
    }
    let summary = writer.finish().expect("final flush");
    assert_eq!(summary.total, 2500);
    // 1000 + 1000 + 500.
    assert_eq!(summary.commits, 3);
    assert_eq!(summary.catalog.row_count().unwrap(), 2500);
}

#[test]
fn progress_snapshots_at_cadence_and_monotone() {
    let db = fresh_db();
    let mut writer = BatchWriter::new(db, 1000, 10);
    let mut snapshots = Vec::new();
    for i in 0..25u32 {
        let path = format!("/p/f{}", i);
        let entry = record(&path, b"x");
        if let Some(snap) = writer.on_record(entry).expect("accepted") {
            assert_eq!(snap.status, ScanStatus::Running);
            assert_eq!(snap.total, None);
            assert_eq!(snap.current_file, path);
            snapshots.push(snap);
        }
    }
    let summary = writer.finish().expect("final flush");
    snapshots.push(summary.last.clone());
    // Snapshots came at 10 and 20, then the terminal one.
    assert_eq!(snapshots.len(), 3);
    assert_eq!(snapshots[0].scanned, 10);
    assert_eq!(snapshots[1].scanned, 20);
    for pair in snapshots.windows(2) {
        assert!(pair[0].scanned <= pair[1].scanned);
    }
    let last = &snapshots[2];
    assert_eq!(last.status, ScanStatus::Completed);
    assert_eq!(last.scanned, summary.total);
    assert_eq!(last.total, Some(summary.total));
    assert_eq!(last.current_file, "");
}

#[test]
fn vanished_file_is_skipped_without_error() {
    let db = fresh_db();
    let mut writer = BatchWriter::new(db, 1000, 10);
    // Five files were discovered, but one vanished before hashing: its record
    // is never produced, and the run still succeeds with total = 4.
    for i in 0..5u32 {
        if i == 2 {
            continue;
        }
        let entry = record(&format!("/gone/f{}", i), b"present");
        writer.on_record(entry).expect("accepted");
    }
    let summary = writer.finish().expect("final flush");
    assert_eq!(summary.total, 4);
    assert_eq!(summary.catalog.row_count().unwrap(), 4);
    assert!(summary.catalog.find_by_path("/gone/f2").unwrap().is_none());
}

#[test]
fn rescan_keeps_rows_and_fingerprints() {
    let db = fresh_db();
    let contents: [&[u8]; 3] = [b"alpha", b"beta", b"gamma"];
    let mut writer = BatchWriter::new(db, 1000, 10);
    for (i, c) in contents.iter().enumerate() {
        writer
            .on_record(record(&format!("/re/f{}", i), c))
            .expect("accepted");
    }
    let summary = writer.finish().expect("first run");
    assert_eq!(summary.catalog.row_count().unwrap(), 3);
    let first_hash = summary
        .catalog
        .find_by_path("/re/f1")
        .unwrap()
        .unwrap()
        .md5_hash;

    // Second run over the unchanged tree, into the same catalog.
    let mut writer = BatchWriter::new(summary.catalog, 1000, 10);
    for (i, c) in contents.iter().enumerate() {
        writer
            .on_record(record(&format!("/re/f{}", i), c))
            .expect("accepted");
    }
    let summary = writer.finish().expect("second run");
    assert_eq!(summary.total, 3);
    assert_eq!(summary.catalog.row_count().unwrap(), 3);
    let second_hash = summary
        .catalog
        .find_by_path("/re/f1")
        .unwrap()
        .unwrap()
        .md5_hash;
    assert_eq!(first_hash, second_hash);
}

#[test]
fn every_record_cataloged_exactly_once() {
    let db = fresh_db();
    let mut writer = BatchWriter::new(db, 3, 10);
    for i in 0..7u32 {
        writer
            .on_record(record(&format!("/all/f{}", i), format!("c{}", i).as_bytes()))
            .expect("accepted");
    }
    let summary = writer.finish().expect("final flush");
    assert_eq!(summary.total, 7);
    assert_eq!(summary.commits, 3);
    assert_eq!(summary.catalog.row_count().unwrap(), 7);
    for i in 0..7u32 {
        let path = format!("/all/f{}", i);
        let entry = summary
            .catalog
            .find_by_path(&path)
            .unwrap()
            .expect("record present");
        assert_eq!(entry.path, path);
        assert_eq!(entry.md5_hash, hash_bytes(format!("c{}", i).as_bytes()));
        assert!(entry.sha256_hash.is_none());
    }
}

#[test]
fn rescan_replaces_row_for_same_path() {
    let db = fresh_db();
    let mut writer = BatchWriter::new(db, 1000, 10);
    writer.on_record(record("/dup/same", b"old")).expect("accepted");
    writer.on_record(record("/dup/same", b"new")).expect("accepted");
    let summary = writer.finish().expect("final flush");
    assert_eq!(summary.total, 2);
    assert_eq!(summary.catalog.row_count().unwrap(), 1);
    let row = summary.catalog.find_by_path("/dup/same").unwrap().unwrap();
    assert_eq!(row.md5_hash, hash_bytes(b"new"));
}

#[test]
fn fresh_catalog_is_empty() {
    let db = fresh_db();
    assert_eq!(db.row_count().unwrap(), 0);
    assert!(db.find_by_path("/nowhere").unwrap().is_none());
}

#[test]
fn full_batch_without_schema_fails_at_the_boundary() {
    // With a batch capacity of 2 and no schema, the failure surfaces on the
    // record that fills the batch, not at finish.
    let db = Database::new(":memory:").expect("open in-memory store");
    let mut writer = BatchWriter::new(db, 2, 10);
    writer.on_record(record("/b/f0", b"a")).expect("batch not yet full");
    let result = writer.on_record(record("/b/f1", b"b"));
    assert!(matches!(result, Err(PipelineError::Persistence)));
}

#[test]
fn unopenable_store_reports_persistence_error() {
    let result = Database::new("/nonexistent_dir_for_store/catalog.db");
    assert!(matches!(result, Err(PipelineError::Persistence)));
}

#[test]
fn missing_schema_makes_commit_fatal() {
    // No init: the first flush has no table to write to, which is fatal.
    let db = Database::new(":memory:").expect("open in-memory store");
    let mut writer = BatchWriter::new(db, 1000, 10);
    writer.on_record(record("/x/f", b"data")).expect("batch not yet full");
    let result = writer.finish();
    assert!(matches!(result, Err(PipelineError::Persistence)));
}
