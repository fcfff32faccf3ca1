use ciderpress::catalog::{Catalog, Slice};
use ciderpress::titles::{auto_populate_titles, title_from_file_name};

fn slice(name: &str, title: Option<&str>) -> Slice {
    Slice {
        id: None,
        original_audio_file_name: name.to_string(),
        title: title.map(|t| t.to_string()),
        transcribed: false,
        audio_file_size: 1,
        audio_file_type: "m4a".to_string(),
        estimated_time_to_transcribe: 1,
        audio_time_length_ms: None,
        transcription: None,
        transcription_time_taken: None,
        transcription_word_count: None,
        transcription_model: None,
        recording_date: None,
    }
}

#[test]
fn titles_come_from_dates_or_names() {
    assert_eq!(title_from_file_name("20251117 093000-5441EC7D.m4a"), "2025-11-17");
    assert_eq!(title_from_file_name("Recording 001.m4a"), "Recording 001");
    assert_eq!(title_from_file_name("memo.m4a.m4a"), "memo");
    assert_eq!(title_from_file_name("talk.mp3"), "talk");
    assert_eq!(title_from_file_name("1234567.wav"), "1234567");
    assert_eq!(title_from_file_name("\u{661}\u{662}\u{663}\u{664}\u{665}\u{666}\u{667}\u{668}.m4a"), "\u{661}\u{662}\u{663}\u{664}\u{665}\u{666}\u{667}\u{668}");
}

#[test]
fn duplicate_titles_are_numbered() {
    let mut catalog = Catalog::new();
    catalog.insert_slice(slice("20251117 a.m4a", None)).unwrap();
    catalog.insert_slice(slice("x.m4a", Some("Kept"))).unwrap();
    catalog.insert_slice(slice("20251117 b.m4a", Some("   "))).unwrap();
    catalog.insert_slice(slice("20251117 c.m4a", None)).unwrap();
    catalog.insert_slice(slice("Kept.m4a", None)).unwrap();
    assert_eq!(auto_populate_titles(&mut catalog), 4);
    let titles: Vec<Option<String>> = catalog.list_all_slices().into_iter().map(|s| s.title).collect();
    assert_eq!(
        titles,
        vec![
            Some("2025-11-17".to_string()),
            Some("Kept".to_string()),
            Some("2025-11-17 (2)".to_string()),
            Some("2025-11-17 (3)".to_string()),
            Some("Kept (2)".to_string()),
        ]
    );
    assert_eq!(auto_populate_titles(&mut catalog), 0);
}
