use clipr::clip::{
    audible_span, extract_clip, sample_is_audible, sample_is_silent, trim_silence, Extraction,
    SILENCE_THRESHOLD_BITS,
};

fn bits(s: &[f32]) -> Vec<u32> {
    s.iter().map(|x| x.to_bits()).collect()
}

#[test]
fn threshold_is_one_millionth() {
    assert_eq!(SILENCE_THRESHOLD_BITS, 1e-6f32.to_bits());
}

#[test]
fn silence_test_matches_float_comparison() {
    for x in [0.0f32, -0.0, 1e-7, -1e-7, 1e-6, -1e-6, 0.5, -0.5, f32::INFINITY, f32::NEG_INFINITY, f32::NAN] {
        assert_eq!(sample_is_silent(x.to_bits()), x.abs() < 1e-6, "{}", x);
        assert_eq!(sample_is_audible(x.to_bits()), x.abs() >= 1e-6, "{}", x);
    }
}

#[test]
fn trims_leading_and_trailing_silence() {
    let s = bits(&[0.0, 0.0, 0.5, 0.3, 0.0, 0.0]);
    assert_eq!(trim_silence(&s), bits(&[0.5, 0.3]));
    match extract_clip(&s) {
        Extraction::Clip(c) => assert_eq!(c, bits(&[0.5, 0.3])),
        Extraction::Empty => panic!("clip expected"),
    }
}

#[test]
fn trimming_keeps_inner_silence() {
    let s = bits(&[0.0, -0.2, 0.0, 0.0, 0.4, 1e-7]);
    assert_eq!(trim_silence(&s), bits(&[-0.2, 0.0, 0.0, 0.4]));
    assert_eq!(audible_span(&s), Some((1, 5)));
}

#[test]
fn single_audible_sample() {
    let s = bits(&[0.0, 1e-6, 0.0]);
    assert_eq!(audible_span(&s), Some((1, 2)));
    assert_eq!(trim_silence(&s), bits(&[1e-6]));
}

#[test]
fn all_zeros_are_rejected() {
    let s = bits(&[0.0, 0.0, 0.0, -0.0]);
    assert!(matches!(extract_clip(&s), Extraction::Empty));
    assert_eq!(audible_span(&s), None);
}

#[test]
fn near_silence_is_rejected() {
    let s = bits(&[5e-7, -9e-7, 0.0]);
    assert!(matches!(extract_clip(&s), Extraction::Empty));
}

#[test]
fn empty_input_is_rejected() {
    assert!(matches!(extract_clip(&[]), Extraction::Empty));
}

#[test]
fn nan_only_clip_is_kept_untrimmed() {
    let s = bits(&[0.0, f32::NAN, 0.0]);
    match extract_clip(&s) {
        Extraction::Clip(c) => assert_eq!(c, s),
        Extraction::Empty => panic!("clip expected"),
    }
}
