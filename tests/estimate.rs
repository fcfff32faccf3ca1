use ciderpress::estimate::{estimate_transcription_time, processing_seconds};

#[test]
fn test_estimate_transcription_time() {
    // With audio duration: 35s per 10 minutes (600s) of audio
    assert_eq!(estimate_transcription_time(10_000, Some(600_000)), 35);
    assert_eq!(estimate_transcription_time(10_000, Some(60_000)), 4);
    assert_eq!(estimate_transcription_time(10_000, Some(6_000_000)), 350);
    assert_eq!(estimate_transcription_time(10_000, Some(5_000)), 1);

    // Without audio duration: fallback to file size heuristic
    assert_eq!(estimate_transcription_time(10_000, None), 1);
    assert_eq!(estimate_transcription_time(1_048_576, None), 4);
    assert_eq!(estimate_transcription_time(50_000_000, None), 167);
}

#[test]
fn estimate_grows_with_duration() {
    let mut last = 0;
    for ms in [0u64, 1, 1_000, 60_000, 600_000, 600_001, 3_600_000, 86_400_000] {
        let e = estimate_transcription_time(1, Some(ms));
        assert!(e >= last);
        assert!(e >= 1);
        last = e;
    }
    assert_eq!(estimate_transcription_time(1, Some(600_001)), 36);
}

#[test]
fn size_and_duration_agree_on_equivalent_lengths() {
    // 10 MiB stands for ten minutes of audio.
    assert_eq!(estimate_transcription_time(10_485_760, None), 35);
    assert_eq!(estimate_transcription_time(0, Some(600_000)), 35);
}

#[test]
fn estimate_is_held_to_i32() {
    assert_eq!(estimate_transcription_time(0, Some(u64::MAX)), i32::MAX);
    assert!(processing_seconds(0, Some(u64::MAX)) > i32::MAX as u64);
    assert_eq!(processing_seconds(0, None), 1);
}
