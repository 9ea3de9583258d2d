use kazaam::aggregate::peak;
use kazaam::audio_processing::{
    interleaved_to_single_channel, split_samples_into_windows, step_size, Overlap,
};
use kazaam::error::SpectrumError;

fn ramp(n: usize) -> Vec<i16> {
    (0..n).map(|i| (i % 30000) as i16).collect()
}

fn overlap(numerator: i64, denominator: i64) -> Overlap {
    Overlap { numerator, denominator }
}

#[test]
fn step_of_eighty_percent_overlap() {
    assert_eq!(step_size(1024, overlap(4, 5)), Ok(204));
}

#[test]
fn ten_thousand_samples_at_step_204_give_45_windows() {
    // floor((10000 - 1024) / 204) + 1: the last window ends exactly at sample 10000
    let samples = ramp(10000);
    let frames = split_samples_into_windows(&samples, 1024, overlap(4, 5)).unwrap();
    assert_eq!(frames.len(), (10000 - 1024) / 204 + 1);
    assert_eq!(frames.len(), 45);
    assert_eq!(frames[44][..], samples[8976..]);
    for (k, frame) in frames.iter().enumerate() {
        assert_eq!(frame.len(), 1024);
        assert_eq!(frame[..], samples[k * 204..k * 204 + 1024]);
    }
}

#[test]
fn frame_count_follows_formula() {
    for &(len, ws, num, den) in &[
        (100usize, 10usize, 0i64, 1i64),
        (105, 10, 1, 2),
        (9, 10, 0, 1),
        (10, 10, 0, 1),
        (1000, 64, 3, 4),
        (777, 100, 1, 3),
    ] {
        let step = step_size(ws, overlap(num, den)).unwrap();
        assert_eq!(step, (ws as i64 * (den - num) / den) as usize);
        let expected = if len >= ws { (len - ws) / step + 1 } else { 0 };
        let frames = split_samples_into_windows(&ramp(len), ws, overlap(num, den)).unwrap();
        assert_eq!(frames.len(), expected);
    }
}

#[test]
fn overlap_of_one_is_invalid() {
    assert_eq!(
        split_samples_into_windows(&ramp(4096), 1024, overlap(1, 1)),
        Err(SpectrumError::InvalidParameter)
    );
}

#[test]
fn negative_overlap_is_invalid() {
    assert_eq!(
        split_samples_into_windows(&ramp(4096), 1024, overlap(-1, 10)),
        Err(SpectrumError::InvalidParameter)
    );
}

#[test]
fn zero_window_is_invalid() {
    assert_eq!(step_size(0, overlap(0, 1)), Err(SpectrumError::InvalidParameter));
}

#[test]
fn zero_denominator_is_invalid() {
    assert_eq!(step_size(16, overlap(0, 0)), Err(SpectrumError::InvalidParameter));
}

#[test]
fn step_below_one_is_invalid() {
    assert_eq!(step_size(1, overlap(1, 2)), Err(SpectrumError::InvalidParameter));
    assert_eq!(step_size(2, overlap(1, 2)), Ok(1));
}

#[test]
fn empty_buffer_gives_no_windows_and_no_peak() {
    let frames = split_samples_into_windows(&Vec::new(), 1024, overlap(0, 1)).unwrap();
    assert!(frames.is_empty());
    assert_eq!(peak(&Vec::new()), Err(SpectrumError::EmptyInput));
}

#[test]
fn short_buffer_gives_no_windows() {
    let frames = split_samples_into_windows(&ramp(1023), 1024, overlap(0, 1)).unwrap();
    assert!(frames.is_empty());
}

#[test]
fn exact_fit_gives_one_window() {
    let samples = ramp(1024);
    let frames = split_samples_into_windows(&samples, 1024, overlap(0, 1)).unwrap();
    assert_eq!(frames, vec![samples]);
}

#[test]
fn disjoint_windows_reconstruct_samples() {
    let samples = ramp(1000);
    let frames = split_samples_into_windows(&samples, 64, overlap(0, 1)).unwrap();
    assert_eq!(frames.len(), 15);
    let joined: Vec<i16> = frames.concat();
    assert_eq!(joined[..], samples[..15 * 64]);
}

#[test]
fn errors_describe_themselves() {
    assert_eq!(SpectrumError::InvalidParameter.message(), "invalid parameter");
    assert_eq!(SpectrumError::EmptyInput.message(), "empty input");
    assert_eq!(SpectrumError::InconsistentFrames.message(), "frames have different bin counts");
}

#[test]
fn stereo_reduces_to_rounded_down_mean() {
    let stereo: Vec<i16> = vec![2, 4, -1, 0, 32767, 32767, -32768, -32768, 1, 2, 9];
    assert_eq!(interleaved_to_single_channel(&stereo), vec![3, -1, 32767, -32768, 1]);
}
