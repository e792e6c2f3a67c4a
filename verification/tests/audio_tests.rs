use murmure::audio::{clamp_i16, downmix_to_mono, read_wav_samples, resample_linear, TARGET_SAMPLE_RATE};
use murmure::wav::encode_wav;

#[test]
fn clamp_passes_values_in_range() {
    assert_eq!(clamp_i16(0), 0);
    assert_eq!(clamp_i16(32767), 32767);
    assert_eq!(clamp_i16(-32768), -32768);
    assert_eq!(clamp_i16(1234), 1234);
}

#[test]
fn clamp_cuts_values_out_of_range() {
    assert_eq!(clamp_i16(40000), 32767);
    assert_eq!(clamp_i16(32768), 32767);
    assert_eq!(clamp_i16(-40000), -32768);
    assert_eq!(clamp_i16(-32769), -32768);
}

#[test]
fn resample_same_rate_is_identity() {
    let input: Vec<i16> = vec![5, -3, 1000, -32768, 32767];
    let out = resample_linear(&input, 8000, 8000);
    assert_eq!(out, input);
}

#[test]
fn resample_is_deterministic() {
    let input: Vec<i16> = vec![17, -200, 3000, 4, 4, -1];
    let a = resample_linear(&input, 8000, 16000);
    let b = resample_linear(&input, 8000, 16000);
    assert_eq!(a, b);
}

#[test]
fn resample_doubling_interpolates_midpoints() {
    let input: Vec<i16> = vec![0, 1000];
    let out = resample_linear(&input, 8000, 16000);
    // positions 0, 1/2, 1, 3/2 of the source; the last clamps to the final sample
    assert_eq!(out, vec![0, 500, 1000, 1000]);
}

#[test]
fn resample_empty_input_gives_empty_output() {
    let input: Vec<i16> = Vec::new();
    assert_eq!(resample_linear(&input, 8000, 16000), Vec::<i16>::new());
}

#[test]
fn resample_zero_rate_gives_empty_output() {
    let input: Vec<i16> = vec![1, 2, 3];
    assert_eq!(resample_linear(&input, 0, 16000), Vec::<i16>::new());
    assert_eq!(resample_linear(&input, 16000, 0), Vec::<i16>::new());
}

#[test]
fn downmix_stereo_averages_frames() {
    let input: Vec<i16> = vec![1000, 2000, -3000, -1001];
    let out = downmix_to_mono(&input, 2);
    // (1000 + 2000) / 2 = 1500; (-3000 + -1001) / 2 = -2000, rounded toward zero
    assert_eq!(out, vec![1500, -2000]);
}

#[test]
fn downmix_drops_incomplete_trailing_frame() {
    let input: Vec<i16> = vec![1, 2, 3];
    let out = downmix_to_mono(&input, 2);
    assert_eq!(out, vec![1]);
}

#[test]
fn downmix_mono_is_identity() {
    let input: Vec<i16> = vec![9, -9, 0];
    assert_eq!(downmix_to_mono(&input, 1), input);
}

#[test]
fn downmix_three_channels() {
    let input: Vec<i16> = vec![300, 600, 900, -3, -4, -5];
    let out = downmix_to_mono(&input, 3);
    assert_eq!(out, vec![600, -4]);
}

#[test]
fn normalize_passes_mono_16khz_through() {
    let samples: Vec<i16> = vec![0, 100, -100, 32767, -32768];
    let bytes = encode_wav(&samples, TARGET_SAMPLE_RATE);
    let out = read_wav_samples(&bytes).unwrap();
    assert_eq!(out, samples);
}

#[test]
fn normalize_resamples_8khz_silence_to_16khz() {
    let samples: Vec<i16> = vec![0; 8000];
    let bytes = encode_wav(&samples, 8000);
    let out = read_wav_samples(&bytes).unwrap();
    assert_eq!(out.len(), 16000);
    assert!(out.iter().all(|&s| s == 0));
}
