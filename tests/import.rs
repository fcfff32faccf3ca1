use ciderpress::catalog::Catalog;
use ciderpress::import::{create_text_slice, import_audio_slice, import_text_file_slice};

#[test]
fn text_slices_are_born_transcribed() {
    let mut catalog = Catalog::new();
    let id = create_text_slice(
        &mut catalog,
        "text_entry_1.txt".to_string(),
        "Notes".to_string(),
        "héllo there world".to_string(),
        1_700_000_000,
    )
    .unwrap();
    let s = &catalog.list_all_slices()[0];
    assert_eq!(s.id, Some(id));
    assert!(s.transcribed);
    assert_eq!(s.audio_file_size, 18);
    assert_eq!(s.audio_file_type, "text");
    assert_eq!(s.transcription_word_count, Some(3));
    assert_eq!(s.transcription_model.as_deref(), Some("manual"));
    assert_eq!(s.title.as_deref(), Some("Notes"));
    assert_eq!(s.estimated_time_to_transcribe, 1);
    assert!(create_text_slice(&mut catalog, "text_entry_1.txt".to_string(), "x".to_string(), "y".to_string(), 0).is_err());
}

#[test]
fn imported_audio_gets_title_and_estimate() {
    let mut catalog = Catalog::new();
    import_audio_slice(&mut catalog, "Talk.MP3".to_string(), "MP3", None, Some("Talk".to_string()), 340_000, Some(5_000), 7).unwrap();
    import_audio_slice(&mut catalog, "b.m4a".to_string(), "m4a", Some("Given".to_string()), None, 100, None, 8).unwrap();
    import_audio_slice(&mut catalog, "c".to_string(), "", None, None, 0, None, 9).unwrap();
    let all = catalog.list_all_slices();
    assert_eq!(all[0].audio_file_type, "mp3");
    assert_eq!(all[0].title.as_deref(), Some("Talk"));
    assert_eq!(all[0].estimated_time_to_transcribe, 10);
    assert_eq!(all[0].audio_time_length_ms, Some(5_000));
    assert_eq!(all[1].title.as_deref(), Some("Given"));
    assert_eq!(all[1].estimated_time_to_transcribe, 1);
    assert_eq!(all[2].title.as_deref(), Some("Imported Audio"));
    assert!(import_audio_slice(&mut catalog, "b.m4a".to_string(), "m4a", None, None, 1, None, 1).is_err());
}

#[test]
fn imported_text_files_are_titled_by_stem() {
    let mut catalog = Catalog::new();
    import_text_file_slice(&mut catalog, "notes.txt".to_string(), None, Some("notes".to_string()), "a b".to_string(), 5).unwrap();
    import_text_file_slice(&mut catalog, "x".to_string(), None, None, "".to_string(), 5).unwrap();
    let all = catalog.list_all_slices();
    assert_eq!(all[0].title.as_deref(), Some("notes"));
    assert_eq!(all[0].transcription_model.as_deref(), Some("imported"));
    assert_eq!(all[0].transcription_word_count, Some(2));
    assert_eq!(all[1].title.as_deref(), Some("Imported Text"));
}
