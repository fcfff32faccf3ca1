use ciderpress::audio::{duration_ms_from_probe, in_prefix, prefix_threshold, StreamTiming};

#[test]
fn container_duration_wins() {
    assert_eq!(duration_ms_from_probe(61_500_000, None), Some(61_500));
    let t = StreamTiming { duration: 48_000, time_base_num: 1, time_base_den: 48_000 };
    assert_eq!(duration_ms_from_probe(2_000_000, Some(t)), Some(2_000));
}

#[test]
fn stream_duration_is_the_fallback() {
    let t = StreamTiming { duration: 96_000, time_base_num: 1, time_base_den: 48_000 };
    assert_eq!(duration_ms_from_probe(0, Some(t)), Some(2_000));
    let zero = StreamTiming { duration: 0, time_base_num: 1, time_base_den: 48_000 };
    assert_eq!(duration_ms_from_probe(-1, Some(zero)), None);
    assert_eq!(duration_ms_from_probe(0, None), None);
}

#[test]
fn prefix_cut_off() {
    assert_eq!(prefix_threshold(15, 1, 44_100), Some(661_500));
    assert_eq!(prefix_threshold(15, 0, 44_100), None);
    assert!(in_prefix(Some(661_499), 661_500));
    assert!(!in_prefix(Some(661_500), 661_500));
    assert!(in_prefix(None, 0));
}
