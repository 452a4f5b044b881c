use clipr::stream::{recording_file_name, window_capacity, StreamFormat};

#[test]
fn window_of_thirty_seconds_stereo() {
    assert_eq!(window_capacity(48000, 2, 30), Some(2_880_000));
}

#[test]
fn window_overflow_is_none() {
    assert_eq!(window_capacity(usize::MAX, 2, 1), None);
    assert_eq!(window_capacity(usize::MAX / 2, 2, 2), None);
}

#[test]
fn zero_second_window_is_empty() {
    assert_eq!(window_capacity(usize::MAX, 2, 0), Some(0));
}

#[test]
fn format_from_float_device() {
    let f = StreamFormat::from_device(44100, 2, 4, true).unwrap();
    assert_eq!(f.bits_per_sample, 32);
    assert_eq!(f.sample_rate, 44100);
    assert_eq!(f.channels, 2);
    assert!(f.is_float);
    assert_eq!(f.window_samples(30), Some(2_646_000));
}

#[test]
fn format_from_integer_device() {
    let f = StreamFormat::from_device(16000, 1, 2, false).unwrap();
    assert_eq!(f.bits_per_sample, 16);
    assert!(!f.is_float);
}

#[test]
fn oversized_sample_is_refused() {
    assert!(StreamFormat::from_device(16000, 1, 8192, false).is_none());
    assert!(StreamFormat::from_device(16000, 1, 8191, false).is_some());
}

#[test]
fn file_name_wraps_timestamp() {
    assert_eq!(recording_file_name("20240101_120000"), "recorded_20240101_120000.wav");
}
