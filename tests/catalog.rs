use ciderpress::catalog::{Catalog, CatalogError, Slice};
use ciderpress::recording_index::{backfill_recording_dates, RecordingIndex, RecordingIndexEntry};

fn create_test_slice(name: &str) -> Slice {
    Slice {
        id: None,
        original_audio_file_name: name.to_string(),
        title: None,
        transcribed: false,
        audio_file_size: 1024,
        audio_file_type: "m4a".to_string(),
        estimated_time_to_transcribe: 30,
        audio_time_length_ms: None,
        transcription: None,
        transcription_time_taken: None,
        transcription_word_count: None,
        transcription_model: None,
        recording_date: None,
    }
}

fn find(catalog: &Catalog, id: i64) -> Slice {
    catalog.list_all_slices().into_iter().find(|s| s.id == Some(id)).unwrap()
}

#[test]
fn test_update_slice_name_success() {
    let mut db = Catalog::new();
    let slice = create_test_slice("original_name.m4a");
    let slice_id = db.insert_slice(slice).unwrap();
    let new_name = "updated_name.m4a";
    let result = db.update_slice_name(slice_id, new_name);
    assert!(result.is_ok(), "Should successfully update slice name");
    let updated_slice = find(&db, slice_id);
    assert_eq!(updated_slice.original_audio_file_name, new_name);
}

#[test]
fn test_update_slice_name_duplicate_filename() {
    let mut db = Catalog::new();
    let slice1_id = db.insert_slice(create_test_slice("slice1.m4a")).unwrap();
    let _slice2_id = db.insert_slice(create_test_slice("slice2.m4a")).unwrap();
    let result = db.update_slice_name(slice1_id, "slice2.m4a");
    assert!(result.is_err(), "Should fail when trying to use duplicate filename");
    let error_message = result.unwrap_err().message();
    assert!(error_message.contains("already exists"), "Error should mention that filename already exists");
}

#[test]
fn test_update_slice_name_nonexistent_slice() {
    let mut db = Catalog::new();
    let result = db.update_slice_name(999, "new_name.m4a");
    assert!(result.is_err(), "Should fail when slice doesn't exist");
    let error_message = result.unwrap_err().message();
    assert!(error_message.contains("not found"), "Error should mention that slice was not found");
}

#[test]
fn test_update_slice_name_same_name_same_slice() {
    let mut db = Catalog::new();
    let slice_id = db.insert_slice(create_test_slice("test_name.m4a")).unwrap();
    let result = db.update_slice_name(slice_id, "test_name.m4a");
    assert!(result.is_ok(), "Should allow updating slice to its current name");
}

#[test]
fn test_update_slice_duplicate_filename() {
    let mut db = Catalog::new();
    let slice1 = create_test_slice("slice1.m4a");
    let slice1_id = db.insert_slice(slice1.duplicate()).unwrap();
    let _slice2_id = db.insert_slice(create_test_slice("slice2.m4a")).unwrap();
    let mut updated_slice = slice1.duplicate();
    updated_slice.original_audio_file_name = "slice2.m4a".to_string();
    let result = db.update_slice(slice1_id, &updated_slice);
    assert!(result.is_err(), "Should fail when trying to use duplicate filename");
    let error_message = result.unwrap_err().message();
    assert!(error_message.contains("already exists"), "Error should mention that filename already exists");
}

#[test]
fn test_update_slice_nonexistent_slice() {
    let mut db = Catalog::new();
    let slice = create_test_slice("new_name.m4a");
    let result = db.update_slice(999, &slice);
    assert!(result.is_err(), "Should fail when slice doesn't exist");
    let error_message = result.unwrap_err().message();
    assert!(error_message.contains("not found"), "Error should mention that slice was not found");
}

#[test]
fn rename_conflict_leaves_both_records_unchanged() {
    let mut db = Catalog::new();
    let a = db.insert_slice(create_test_slice("a.m4a")).unwrap();
    let b = db.insert_slice(create_test_slice("b.m4a")).unwrap();
    assert_eq!(db.update_slice_name(a, "b.m4a"), Err(CatalogError::DuplicateName));
    assert_eq!(find(&db, a).original_audio_file_name, "a.m4a");
    assert_eq!(find(&db, b).original_audio_file_name, "b.m4a");
    let mut changed = find(&db, b);
    changed.original_audio_file_name = "a.m4a".to_string();
    changed.audio_file_size = 7;
    assert_eq!(db.update_slice(b, &changed), Err(CatalogError::DuplicateName));
    assert_eq!(find(&db, b).audio_file_size, 1024);
    assert_eq!(find(&db, b).original_audio_file_name, "b.m4a");
}

#[test]
fn insert_assigns_increasing_ids_and_refuses_duplicates() {
    let mut db = Catalog::new();
    assert_eq!(db.insert_slice(create_test_slice("a.m4a")), Ok(1));
    assert_eq!(db.insert_slice(create_test_slice("b.m4a")), Ok(2));
    assert_eq!(db.insert_slice(create_test_slice("a.m4a")), Err(CatalogError::DuplicateName));
    assert_eq!(db.len(), 2);
    assert!(db.slice_exists("a.m4a"));
    assert!(!db.slice_exists("c.m4a"));
}

#[test]
fn insert_refuses_inconsistent_slices() {
    let mut db = Catalog::new();
    let mut s = create_test_slice("a.m4a");
    s.estimated_time_to_transcribe = 0;
    assert_eq!(db.insert_slice(s), Err(CatalogError::InvalidSlice));
    let mut t = create_test_slice("b.m4a");
    t.transcribed = true;
    t.transcription = Some("hi".to_string());
    assert_eq!(db.insert_slice(t), Err(CatalogError::InvalidSlice));
    assert_eq!(db.len(), 0);
}

#[test]
fn transcription_update_sets_all_fields() {
    let mut db = Catalog::new();
    let id = db.insert_slice(create_test_slice("a.m4a")).unwrap();
    assert_eq!(db.update_slice_transcription(id, "one two", 12, 2, "base.en"), Ok(()));
    let s = find(&db, id);
    assert!(s.transcribed);
    assert_eq!(s.transcription, Some("one two".to_string()));
    assert_eq!(s.transcription_time_taken, Some(12));
    assert_eq!(s.transcription_word_count, Some(2));
    assert_eq!(s.transcription_model, Some("base.en".to_string()));
    assert_eq!(db.update_slice_transcription(42, "x", 1, 1, "tiny"), Err(CatalogError::NotFound));
}

#[test]
fn corrupt_durations_are_cleared_then_repopulated() {
    let mut db = Catalog::new();
    let mut long = create_test_slice("long.m4a");
    long.audio_time_length_ms = Some(90_000_000);
    let mut fine = create_test_slice("fine.m4a");
    fine.audio_time_length_ms = Some(60_000);
    let mut failing = create_test_slice("failing.m4a");
    failing.audio_time_length_ms = Some(86_400_001);
    let long_id = db.insert_slice(long).unwrap();
    let fine_id = db.insert_slice(fine).unwrap();
    let failing_id = db.insert_slice(failing).unwrap();
    assert_eq!(db.clear_corrupt_audio_durations(), 2);
    assert_eq!(find(&db, long_id).audio_time_length_ms, None);
    assert_eq!(find(&db, fine_id).audio_time_length_ms, Some(60_000));
    let missing: Vec<i64> = db.get_slices_without_duration().iter().map(|s| s.id.unwrap()).collect();
    assert_eq!(missing, vec![long_id, failing_id]);
    assert_eq!(db.populate_audio_duration(long_id, Some(3_000_000)), Ok(true));
    assert_eq!(db.populate_audio_duration(failing_id, None), Ok(false));
    assert_eq!(db.populate_audio_duration(fine_id, Some(1)), Ok(false));
    assert_eq!(find(&db, long_id).audio_time_length_ms, Some(3_000_000));
    assert_eq!(find(&db, failing_id).audio_time_length_ms, None);
    assert_eq!(find(&db, fine_id).audio_time_length_ms, Some(60_000));
    assert_eq!(db.update_slice_audio_duration(failing_id, 5_000), Ok(()));
    assert_eq!(find(&db, failing_id).audio_time_length_ms, Some(5_000));
    assert_eq!(db.update_slice_audio_duration(99, 5_000), Err(CatalogError::NotFound));
}

#[test]
fn transcription_speed_uses_history_or_default() {
    let mut db = Catalog::new();
    assert_eq!(db.get_transcription_speed(), 34_000);
    let a = db.insert_slice(create_test_slice("a.m4a")).unwrap();
    let b = db.insert_slice(create_test_slice("b.m4a")).unwrap();
    db.update_slice_transcription(a, "x", 2, 1, "tiny").unwrap();
    db.update_slice_transcription(b, "y", 0, 1, "tiny").unwrap();
    // Only the slice with a positive time counts: 1024 bytes over 2 seconds.
    assert_eq!(db.get_transcription_speed(), 512);
}

#[test]
fn clear_all_slices_keeps_counting_ids() {
    let mut db = Catalog::new();
    db.insert_slice(create_test_slice("a.m4a")).unwrap();
    db.clear_all_slices();
    assert_eq!(db.len(), 0);
    assert_eq!(db.insert_slice(create_test_slice("a.m4a")), Ok(2));
}

#[test]
fn recording_dates_are_backfilled_by_suffix() {
    let index = RecordingIndex {
        entries: vec![
            RecordingIndexEntry { path: "dir/other.m4a".to_string(), apple_date: 5 },
            RecordingIndexEntry { path: "dir/a.m4a".to_string(), apple_date: 100 },
            RecordingIndexEntry { path: "x/a.m4a".to_string(), apple_date: 200 },
        ],
    };
    assert_eq!(index.get_recording_date_for_filename("a.m4a"), Some(978_307_300));
    assert_eq!(index.get_recording_date_for_filename("zzz.m4a"), None);
    let mut db = Catalog::new();
    let a = db.insert_slice(create_test_slice("a.m4a")).unwrap();
    let z = db.insert_slice(create_test_slice("zzz.m4a")).unwrap();
    assert_eq!(backfill_recording_dates(&mut db, &index), 1);
    assert_eq!(find(&db, a).recording_date, Some(978_307_300));
    assert_eq!(find(&db, z).recording_date, None);
}

#[test]
fn stored_slices_are_restored_under_their_ids() {
    let mut db = Catalog::new();
    let mut a = create_test_slice("a.m4a");
    a.id = Some(5);
    assert_eq!(db.restore_slice(a), Ok(()));
    let mut b = create_test_slice("b.m4a");
    b.id = Some(3);
    assert_eq!(db.restore_slice(b), Err(CatalogError::InvalidSlice));
    let mut c = create_test_slice("a.m4a");
    c.id = Some(9);
    assert_eq!(db.restore_slice(c), Err(CatalogError::DuplicateName));
    assert_eq!(db.restore_slice(create_test_slice("d.m4a")), Err(CatalogError::InvalidSlice));
    assert_eq!(db.insert_slice(create_test_slice("e.m4a")), Ok(6));
    assert_eq!(db.len(), 2);
}

#[test]
fn test_update_slice_name_preserves_other_fields() {
    let mut db = Catalog::new();
    let mut slice = create_test_slice("original_name.m4a");
    slice.transcribed = true;
    slice.transcription = Some("Test transcription".to_string());
    slice.transcription_time_taken = Some(60);
    slice.transcription_word_count = Some(10);
    slice.transcription_model = Some("base.en".to_string());
    let slice_id = db.insert_slice(slice).unwrap();
    let new_name = "updated_name.m4a";
    let result = db.update_slice_name(slice_id, new_name);
    assert!(result.is_ok(), "Should successfully update slice name");
    let updated_slice = find(&db, slice_id);
    assert_eq!(updated_slice.original_audio_file_name, new_name);
    assert_eq!(updated_slice.transcribed, true);
    assert_eq!(updated_slice.transcription, Some("Test transcription".to_string()));
    assert_eq!(updated_slice.transcription_time_taken, Some(60));
    assert_eq!(updated_slice.transcription_word_count, Some(10));
    assert_eq!(updated_slice.audio_file_size, 1024);
    assert_eq!(updated_slice.audio_file_type, "m4a");
}

#[test]
fn test_update_slice_success() {
    let mut db = Catalog::new();
    let slice = create_test_slice("original_name.m4a");
    let slice_id = db.insert_slice(slice.duplicate()).unwrap();
    let mut updated_slice = slice.duplicate();
    updated_slice.original_audio_file_name = "updated_name.m4a".to_string();
    updated_slice.transcription = Some("Updated transcription text".to_string());
    updated_slice.transcribed = true;
    updated_slice.transcription_word_count = Some(3);
    updated_slice.transcription_time_taken = Some(45);
    updated_slice.transcription_model = Some("base.en".to_string());
    let result = db.update_slice(slice_id, &updated_slice);
    assert!(result.is_ok(), "Should successfully update slice");
    let updated = find(&db, slice_id);
    assert_eq!(updated.original_audio_file_name, "updated_name.m4a");
    assert_eq!(updated.transcription, Some("Updated transcription text".to_string()));
    assert_eq!(updated.transcribed, true);
    assert_eq!(updated.transcription_word_count, Some(3));
    assert_eq!(updated.transcription_time_taken, Some(45));
    assert_eq!(updated.audio_file_size, 1024);
    assert_eq!(updated.audio_file_type, "m4a");
    assert_eq!(updated.estimated_time_to_transcribe, 30);
}

#[test]
fn test_update_slice_transcription_only() {
    let mut db = Catalog::new();
    let slice = create_test_slice("test_slice.m4a");
    let slice_id = db.insert_slice(slice.duplicate()).unwrap();
    let mut updated_slice = slice.duplicate();
    updated_slice.transcription = Some("New transcription content".to_string());
    updated_slice.transcribed = true;
    updated_slice.transcription_word_count = Some(3);
    updated_slice.transcription_time_taken = Some(60);
    updated_slice.transcription_model = Some("base.en".to_string());
    let result = db.update_slice(slice_id, &updated_slice);
    assert!(result.is_ok(), "Should successfully update transcription");
    let updated = find(&db, slice_id);
    assert_eq!(updated.transcription, Some("New transcription content".to_string()));
    assert_eq!(updated.transcribed, true);
    assert_eq!(updated.transcription_word_count, Some(3));
    assert_eq!(updated.transcription_time_taken, Some(60));
    assert_eq!(updated.original_audio_file_name, "test_slice.m4a");
}

#[test]
fn transcription_speed_rounds_up() {
    let mut db = Catalog::new();
    let mut s = create_test_slice("a.m4a");
    s.audio_file_size = 2;
    let a = db.insert_slice(s).unwrap();
    db.update_slice_transcription(a, "x", 3, 1, "tiny").unwrap();
    assert_eq!(db.get_transcription_speed(), 1);
    let mut t = create_test_slice("b.m4a");
    t.audio_file_size = 999;
    let b = db.insert_slice(t).unwrap();
    db.update_slice_transcription(b, "y", 0, 1, "tiny").unwrap();
    assert_eq!(db.get_transcription_speed(), 1);
}

#[test]
fn duration_pass_fills_missing_durations() {
    let mut db = Catalog::new();
    let mut long = create_test_slice("long.m4a");
    long.audio_time_length_ms = Some(90_000_000);
    let a = db.insert_slice(long).unwrap();
    let b = db.insert_slice(create_test_slice("b.m4a")).unwrap();
    let c = db.insert_slice(create_test_slice("c.m4a")).unwrap();
    assert_eq!(db.clear_corrupt_audio_durations(), 1);
    let probes = vec![(a, Some(4_000)), (b, None), (c, Some(7_000)), (c, Some(9_000)), (99, Some(1))];
    assert_eq!(db.apply_duration_probes(&probes), 2);
    assert_eq!(find(&db, a).audio_time_length_ms, Some(4_000));
    assert_eq!(find(&db, b).audio_time_length_ms, None);
    assert_eq!(find(&db, c).audio_time_length_ms, Some(7_000));
}
