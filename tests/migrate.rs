use ciderpress::catalog::{Catalog, Slice};
use ciderpress::config::Config;
use ciderpress::migrate::{
    format_audio_duration, format_file_size, latest, pre_migration_stats, scan_m4a_files, CopyReport, MigrationEngine, MigrationError, ProcessResult, ScannedFile,
    IndexAccess, SourceAccess, WalkEntry,
};
use ciderpress::recording_index::{RecordingIndex, RecordingIndexEntry};

fn config() -> Config {
    Config::default_for_home(&"/home/u".to_string())
}

fn file(name: &str, size: u64) -> ScannedFile {
    ScannedFile {
        path: format!("/memos/{}", name),
        name: name.to_string(),
        extension: "m4a".to_string(),
        size,
    }
}

trait CloneReport {
    fn clone_report(&self) -> CopyReport;
}

impl CloneReport for CopyReport {
    fn clone_report(&self) -> CopyReport {
        match self {
            CopyReport::Copied { bytes, destination_bytes, duration_ms } => CopyReport::Copied {
                bytes: *bytes,
                destination_bytes: *destination_bytes,
                duration_ms: *duration_ms,
            },
            CopyReport::Failed => CopyReport::Failed,
            CopyReport::NotCopied => CopyReport::NotCopied,
        }
    }
}

fn copied(bytes: u64) -> CopyReport {
    CopyReport::Copied { bytes, destination_bytes: Some(bytes), duration_ms: None }
}

fn existing(name: &str) -> Slice {
    Slice {
        id: None,
        original_audio_file_name: name.to_string(),
        title: None,
        transcribed: false,
        audio_file_size: 10,
        audio_file_type: "m4a".to_string(),
        estimated_time_to_transcribe: 1,
        audio_time_length_ms: None,
        transcription: None,
        transcription_time_taken: None,
        transcription_word_count: None,
        transcription_model: None,
        recording_date: None,
    }
}

/// Runs the per-file part of a migration the way a caller does: skip what
/// is cataloged, otherwise copy (here: the given report) and record.
fn run(engine: &mut MigrationEngine, catalog: &mut Catalog, index: &RecordingIndex, files: &Vec<ScannedFile>, reports: &Vec<CopyReport>) {
    engine.begin();
    engine.check_sources(SourceAccess::Listable, IndexAccess::Readable).unwrap();
    engine.set_scan_result(files);
    for (i, f) in files.iter().enumerate() {
        let report = if engine.needs_copy(catalog, f) { reports[i].clone_report() } else { CopyReport::NotCopied };
        let outcome = engine.process_m4a_file(catalog, index, f, &report);
        engine.record_outcome(&outcome);
    }
}

#[test]
fn migration_copies_new_files_and_skips_cataloged_ones() {
    let mut catalog = Catalog::new();
    catalog.insert_slice(existing("c.m4a")).unwrap();
    let index = RecordingIndex::empty();
    let files = vec![file("a.m4a", 1_048_576), file("b.m4a", 2_097_152), file("c.m4a", 3)];
    let reports = vec![copied(1_048_576), copied(2_097_152), CopyReport::Failed];
    let mut engine = MigrationEngine::new(config());
    run(&mut engine, &mut catalog, &index, &files, &reports);
    let summary = engine.finish();
    assert_eq!((summary.copied, summary.skipped, summary.errors), (2, 1, 0));
    assert_eq!(summary.total_size_bytes, 3_145_731);
    let slices = catalog.list_all_slices();
    assert_eq!(slices.len(), 3);
    assert_eq!(slices[0].original_audio_file_name, "c.m4a");
    let a = &slices[1];
    let b = &slices[2];
    assert_eq!(a.original_audio_file_name, "a.m4a");
    assert_eq!(b.original_audio_file_name, "b.m4a");
    assert!(a.estimated_time_to_transcribe >= 1);
    assert!(b.estimated_time_to_transcribe > a.estimated_time_to_transcribe);
    assert_eq!(a.estimated_time_to_transcribe, 4);
    assert_eq!(b.estimated_time_to_transcribe, 7);
    assert!(engine.get_migration_progress().is_none());
}

#[test]
fn second_migration_skips_everything() {
    let mut catalog = Catalog::new();
    let index = RecordingIndex::empty();
    let files = vec![file("a.m4a", 10), file("b.m4a", 20)];
    let reports = vec![copied(10), copied(20)];
    let mut engine = MigrationEngine::new(config());
    run(&mut engine, &mut catalog, &index, &files, &reports);
    let first = engine.finish();
    assert_eq!(first.copied, 2);
    let before = catalog.list_all_slices();
    run(&mut engine, &mut catalog, &index, &files, &reports);
    let second = engine.finish();
    assert_eq!((second.copied, second.skipped, second.errors), (0, 2, 0));
    let after = catalog.list_all_slices();
    assert_eq!(before.len(), after.len());
    for (x, y) in before.iter().zip(after.iter()) {
        assert_eq!(x.id, y.id);
        assert_eq!(x.original_audio_file_name, y.original_audio_file_name);
    }
}

#[test]
fn copy_failures_are_counted_and_do_not_stop_the_run() {
    let mut catalog = Catalog::new();
    let index = RecordingIndex::empty();
    let engine = MigrationEngine::new(config());
    let f = file("a.m4a", 10);
    assert_eq!(engine.process_m4a_file(&mut catalog, &index, &f, &CopyReport::Failed), Err(MigrationError::CopyFailed));
    let unverified = CopyReport::Copied { bytes: 10, destination_bytes: None, duration_ms: None };
    assert_eq!(engine.process_m4a_file(&mut catalog, &index, &f, &unverified), Err(MigrationError::CopyNotVerified));
    let short = CopyReport::Copied { bytes: 10, destination_bytes: Some(9), duration_ms: None };
    assert_eq!(engine.process_m4a_file(&mut catalog, &index, &f, &short), Err(MigrationError::CopyNotVerified));
    assert_eq!(catalog.len(), 0);
    let good = CopyReport::Copied { bytes: 10, destination_bytes: Some(10), duration_ms: Some(600_000) };
    assert_eq!(engine.process_m4a_file(&mut catalog, &index, &f, &good), Ok(ProcessResult::Copied(10)));
    assert_eq!(catalog.list_all_slices()[0].estimated_time_to_transcribe, 35);
    assert_eq!(catalog.list_all_slices()[0].audio_time_length_ms, Some(600_000));
}

#[test]
fn migrated_slice_gets_recording_date_from_index() {
    let mut catalog = Catalog::new();
    let index = RecordingIndex {
        entries: vec![RecordingIndexEntry { path: "sub/a.m4a".to_string(), apple_date: 1_000 }],
    };
    let engine = MigrationEngine::new(config());
    engine.process_m4a_file(&mut catalog, &index, &file("a.m4a", 5), &copied(5)).unwrap();
    assert_eq!(catalog.list_all_slices()[0].recording_date, Some(978_308_200));
}

#[test]
fn progress_lifecycle() {
    let mut engine = MigrationEngine::new(config());
    assert!(engine.get_migration_progress().is_none());
    engine.begin();
    let p = engine.get_migration_progress().unwrap();
    assert_eq!(p.total_recordings, 0);
    assert_eq!(p.current_step, "Initializing...");
    let files = vec![file("a.m4a", 10), file("b.m4a", 20), file("c.m4a", 30)];
    assert_eq!(engine.set_scan_result(&files), 60);
    let p = engine.get_migration_progress().unwrap();
    assert_eq!(p.total_recordings, 3);
    assert_eq!(p.total_size_bytes, 60);
    engine.record_outcome(&Ok(ProcessResult::Copied(10)));
    engine.record_outcome(&Err(MigrationError::CopyFailed));
    let p = engine.get_migration_progress_ref().as_ref().unwrap();
    assert_eq!(p.processed_recordings, 2);
    assert_eq!(p.failed_recordings, 1);
    assert_eq!(p.processed_size_bytes, 10);
    assert_eq!(p.total_recordings, 3);
    engine.update_progress("Copying", None, None);
    assert_eq!(engine.get_migration_progress().unwrap().current_step, "Copying");
    let summary = engine.finish();
    assert_eq!((summary.copied, summary.errors), (1, 1));
    assert!(engine.get_migration_progress().is_none());
}

#[test]
fn unreachable_sources_abort_the_run() {
    let mut engine = MigrationEngine::new(config());
    engine.begin();
    assert_eq!(engine.check_sources(SourceAccess::PermissionDenied, IndexAccess::Absent), Err(MigrationError::SourcePermissionDenied));
    assert!(engine.get_migration_progress().is_none());
    engine.begin();
    assert_eq!(engine.check_sources(SourceAccess::Missing, IndexAccess::Unreadable), Err(MigrationError::SourceNotFound));
    assert!(engine.get_migration_progress().is_none());
    engine.begin();
    assert_eq!(engine.check_sources(SourceAccess::Listable, IndexAccess::Unreadable), Err(MigrationError::IndexUnreadable));
    assert!(engine.get_migration_progress().is_none());
    engine.begin();
    assert_eq!(engine.check_sources(SourceAccess::Listable, IndexAccess::Readable), Ok(()));
    assert!(engine.get_migration_progress().is_some());
}

#[test]
fn a_missing_index_does_not_stop_the_run() {
    let mut engine = MigrationEngine::new(config());
    engine.begin();
    assert_eq!(engine.check_sources(SourceAccess::Listable, IndexAccess::Absent), Ok(()));
    assert!(engine.get_migration_progress().is_some());
    let mut catalog = Catalog::new();
    let index = RecordingIndex::empty();
    let f = file("a.m4a", 10);
    assert!(engine.needs_copy(&catalog, &f));
    assert_eq!(engine.process_m4a_file(&mut catalog, &index, &f, &copied(10)), Ok(ProcessResult::Copied(10)));
    assert_eq!(catalog.list_all_slices()[0].recording_date, None);
    assert!(!engine.needs_copy(&catalog, &f));
    assert_eq!(engine.process_m4a_file(&mut catalog, &index, &f, &CopyReport::NotCopied), Ok(ProcessResult::Skipped));
    let g = file("b.m4a", 10);
    assert_eq!(engine.process_m4a_file(&mut catalog, &index, &g, &CopyReport::NotCopied), Err(MigrationError::CopyFailed));
}

#[test]
fn scan_keeps_audio_files_in_walk_order() {
    let entries = vec![
        WalkEntry::Directory,
        WalkEntry::File(file("recording1.m4a", 17)),
        WalkEntry::File(file("document.txt", 17)),
        WalkEntry::AccessError,
        WalkEntry::Directory,
        WalkEntry::File(file("recording3.M4A", 17)),
        WalkEntry::File(file(".m4a", 1)),
        WalkEntry::Other,
    ];
    let r = scan_m4a_files(&entries);
    let names: Vec<String> = r.files.iter().map(|f| f.name.clone()).collect();
    assert_eq!(names, vec!["recording1.m4a".to_string(), "recording3.M4A".to_string()]);
    assert_eq!(r.directories_scanned, 2);
    assert_eq!(r.access_errors, 1);
}

#[test]
fn pre_migration_counts() {
    let mut catalog = Catalog::new();
    catalog.insert_slice(existing("a.m4a")).unwrap();
    let b = catalog.insert_slice(existing("b.m4a")).unwrap();
    catalog.update_slice_transcription(b, "t", 1, 1, "tiny").unwrap();
    let files = vec![file("a.m4a", 5), file("c.m4a", 7), file("d.m4a", 11)];
    assert_eq!(latest(&vec![3, 9, 4]), Some(9));
    assert_eq!(latest(&vec![]), None);
    let stats = pre_migration_stats(&files, Some(0), &catalog, None);
    assert_eq!(stats.origin_total_files, 3);
    assert_eq!(stats.origin_total_size_bytes, 23);
    assert_eq!(stats.files_to_migrate, 2);
    assert_eq!(stats.destination_total_files, 2);
    assert_eq!(stats.transcribed_count, 1);
    assert_eq!(stats.not_transcribed_count, 1);
    assert_eq!(stats.origin_most_recent_date.as_deref(), Some("1970-01-01 00:00:00"));
    assert_eq!(stats.destination_most_recent_date, None);
    let later = pre_migration_stats(&files, Some(86_461), &catalog, Some(1_700_000_000));
    assert_eq!(later.origin_most_recent_date.as_deref(), Some("1970-01-02 00:01:01"));
    assert_eq!(later.destination_most_recent_date.as_deref(), Some("2023-11-14 22:13:20"));
}

fn float_size(bytes: u64) -> String {
    if bytes < 1024 {
        format!("{} B", bytes)
    } else if bytes < 1_048_576 {
        format!("{:.1} KB", bytes as f64 / 1024.0)
    } else if bytes < 1_073_741_824 {
        format!("{:.1} MB", bytes as f64 / 1_048_576.0)
    } else {
        format!("{:.1} GB", bytes as f64 / 1_073_741_824.0)
    }
}

#[test]
fn file_sizes_for_people() {
    assert_eq!(format_file_size(512), "512 B");
    assert_eq!(format_file_size(1536), "1.5 KB");
    assert_eq!(format_file_size(3_670_016), "3.5 MB");
    assert_eq!(format_file_size(1_073_741_824), "1.0 GB");
    for b in [0u64, 1023, 1024, 1280, 1792, 10_000, 1_048_575, 1_048_576, 5_000_000, 1_073_741_823, 5_000_000_000, 123_456_789_012] {
        assert_eq!(format_file_size(b), float_size(b), "size {}", b);
    }
}

#[test]
fn durations_for_people() {
    assert_eq!(format_audio_duration(0), "0s");
    assert_eq!(format_audio_duration(59_499), "59s");
    assert_eq!(format_audio_duration(59_500), "1m 0s");
    assert_eq!(format_audio_duration(3_723_000), "1h 2m 3s");
    assert_eq!(format_audio_duration(3_600_000), "1h 0m 0s");
}
