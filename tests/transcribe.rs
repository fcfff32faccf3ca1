use ciderpress::catalog::{Catalog, Slice};
use ciderpress::config::Config;
use ciderpress::transcribe::{
    clear_transcription_progress, estimated_total_seconds, init_transcription_progress, join_segments,
    mark_slice_completed, mark_slice_failed, name_from_transcription, select_slices, set_elapsed_seconds,
    start_current_slice, word_count, TranscribeError, TranscriptionEngine, TranscriptionProgress, WhisperModel,
};

fn config() -> Config {
    let mut c = Config::default_for_home(&"/tmp".to_string());
    c.model_name = "base.en".to_string();
    c
}

fn slice(name: &str) -> Slice {
    Slice {
        id: None,
        original_audio_file_name: name.to_string(),
        title: None,
        transcribed: false,
        audio_file_size: 100,
        audio_file_type: "m4a".to_string(),
        estimated_time_to_transcribe: 30,
        audio_time_length_ms: None,
        transcription: None,
        transcription_time_taken: None,
        transcription_word_count: None,
        transcription_model: None,
        recording_date: None,
    }
}

#[test]
fn test_word_count() {
    let text = "Hello world, this is a test.";
    let count = word_count(text);
    assert_eq!(count, 6);
}

#[test]
fn word_count_edges() {
    assert_eq!(word_count(""), 0);
    assert_eq!(word_count("   \t\n "), 0);
    assert_eq!(word_count("  one\u{3000}two  three "), 3);
}

#[test]
fn test_parse_model_name() {
    let engine = TranscriptionEngine::new(config());
    assert!(engine.parse_model_name("tiny").is_ok());
    assert!(engine.parse_model_name("base.en").is_ok());
    assert!(engine.parse_model_name("large-v3").is_ok());
    assert!(engine.parse_model_name("invalid-model").is_err());
}

#[test]
fn model_names_map_to_models() {
    let engine = TranscriptionEngine::new(config());
    assert_eq!(engine.parse_model_name("large-v1"), Ok(WhisperModel::Large));
    assert_eq!(engine.parse_model_name("large-v3-turbo"), Ok(WhisperModel::LargeV3Turbo));
    assert_eq!(engine.parse_model_name("Tiny"), Err(TranscribeError::UnsupportedModel));
}

#[test]
fn segments_are_joined_with_single_spaces() {
    assert_eq!(join_segments(&vec![]), "");
    assert_eq!(join_segments(&vec!["one".to_string()]), "one");
    assert_eq!(join_segments(&vec!["Hello".to_string(), "world.".to_string(), "Again".to_string()]), "Hello world. Again");
}

#[test]
fn names_are_sanitized() {
    assert_eq!(name_from_transcription("  What: a <great> day?  ", 3), "What a great day");
    let long = "a".repeat(60);
    assert_eq!(name_from_transcription(&long, 3), "a".repeat(50));
    assert_eq!(name_from_transcription(" /\\:*?\"<>| ", 7), "Slice 7");
    assert_eq!(name_from_transcription("", -12), "Slice -12");
}

#[test]
fn missing_audio_fails_the_slice() {
    let engine = TranscriptionEngine::new(config());
    let mut catalog = Catalog::new();
    let id = catalog.insert_slice(slice("gone.m4a")).unwrap();
    let mut progress: Option<TranscriptionProgress> = None;
    init_transcription_progress(&mut progress, 1, 30, 34_000);
    let r = engine.begin_slice(&mut progress, &catalog, id, false);
    assert!(matches!(r, Err(TranscribeError::FileMissing)));
    assert_eq!(progress.as_ref().unwrap().failed_slices, 1);
    assert_eq!(progress.as_ref().unwrap().completed_slices, 0);
    assert!(!catalog.list_all_slices()[0].transcribed);
    let r = engine.begin_slice(&mut progress, &catalog, 999, true);
    assert!(matches!(r, Err(TranscribeError::SliceNotFound)));
    assert_eq!(progress.as_ref().unwrap().failed_slices, 2);
}

#[test]
fn transcribed_slice_is_stored_and_counted() {
    let engine = TranscriptionEngine::new(config());
    let mut catalog = Catalog::new();
    let id = catalog.insert_slice(slice("memo.m4a")).unwrap();
    let mut progress: Option<TranscriptionProgress> = None;
    init_transcription_progress(&mut progress, 1, 30, 34_000);
    let job = engine.begin_slice(&mut progress, &catalog, id, true).unwrap();
    assert_eq!(job.file_name, "memo.m4a");
    assert!(job.needs_conversion);
    let p = progress.as_ref().unwrap();
    assert_eq!(p.current_slice_id, Some(id));
    assert_eq!(p.current_slice_estimated_seconds, 1);
    assert_eq!(p.current_step, "Transcribing audio...");
    let segments = vec!["Hello there".to_string(), "general".to_string()];
    assert_eq!(engine.complete_slice(&mut progress, &mut catalog, id, &segments, 9), Ok(()));
    let s = &catalog.list_all_slices()[0];
    assert!(s.transcribed);
    assert_eq!(s.transcription.as_deref(), Some("Hello there general"));
    assert_eq!(s.transcription_word_count, Some(3));
    assert_eq!(s.transcription_time_taken, Some(9));
    assert_eq!(s.transcription_model.as_deref(), Some("base.en"));
    assert_eq!(progress.as_ref().unwrap().completed_slices, 1);
    assert_eq!(engine.engine_failed(&mut progress), TranscribeError::EngineFailed);
    assert_eq!(progress.as_ref().unwrap().failed_slices, 1);
}

#[test]
fn progress_snapshot_lifecycle() {
    let mut progress: Option<TranscriptionProgress> = None;
    mark_slice_completed(&mut progress);
    assert!(progress.is_none());
    assert_eq!(clear_transcription_progress(&mut progress), None);
    init_transcription_progress(&mut progress, 2, 60, 1_000);
    start_current_slice(&mut progress, 4, "x.m4a".to_string(), 10_485_760, None);
    assert_eq!(progress.as_ref().unwrap().current_slice_estimated_seconds, 35);
    set_elapsed_seconds(&mut progress, 12, Some(3));
    assert_eq!(progress.as_ref().unwrap().elapsed_seconds, 12);
    mark_slice_completed(&mut progress);
    mark_slice_failed(&mut progress);
    assert_eq!(clear_transcription_progress(&mut progress), Some((2, 1, 1)));
    let p = progress.as_ref().unwrap();
    assert!(!p.is_active);
    assert_eq!(p.current_step, "Complete");
    set_elapsed_seconds(&mut progress, 99, None);
    assert_eq!(progress.as_ref().unwrap().elapsed_seconds, 12);
}

#[test]
fn batch_selection_and_estimate() {
    let mut catalog = Catalog::new();
    let a = catalog.insert_slice(slice("a.m4a")).unwrap();
    let b = catalog.insert_slice(slice("b.m4a")).unwrap();
    catalog.update_slice_transcription(b, "done", 1, 1, "tiny").unwrap();
    let ids = vec![b, 77, a];
    assert_eq!(select_slices(&catalog, &ids, true), vec![a]);
    assert_eq!(select_slices(&catalog, &ids, false), vec![b, 77, a]);
    assert_eq!(estimated_total_seconds(&catalog, &ids), 60);
}
