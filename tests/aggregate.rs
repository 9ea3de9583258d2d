use kazaam::aggregate::{average, peak};
use kazaam::audio_processing::{FrequencyInfo, WindowFrequencyInfo};
use kazaam::error::SpectrumError;

fn frame(time_offset: u64, bins: &[(u64, u64)]) -> WindowFrequencyInfo {
    WindowFrequencyInfo {
        time_offset,
        frequencies: bins.iter().map(|&(hertz, intensity)| FrequencyInfo { hertz, intensity }).collect(),
    }
}

#[test]
fn average_divides_column_sums_by_frame_count() {
    let frames = vec![
        frame(0, &[(0, 1), (10, 5), (20, 9)]),
        frame(4, &[(0, 2), (10, 5), (20, 0)]),
        frame(8, &[(0, 4), (10, 6), (20, 0)]),
    ];
    let avg = average(&frames).unwrap();
    assert_eq!(avg, vec![
        FrequencyInfo { hertz: 0, intensity: 2 },
        FrequencyInfo { hertz: 10, intensity: 5 },
        FrequencyInfo { hertz: 20, intensity: 3 },
    ]);
}

#[test]
fn average_keeps_bin_count() {
    let frames: Vec<WindowFrequencyInfo> =
        (0..7).map(|k| frame(k * 4, &vec![(1, k); 512])).collect();
    assert_eq!(average(&frames).unwrap().len(), 512);
}

#[test]
fn average_of_large_intensities_does_not_overflow() {
    let frames = vec![frame(0, &[(0, u64::MAX)]), frame(1, &[(0, u64::MAX - 1)])];
    assert_eq!(average(&frames).unwrap()[0].intensity, u64::MAX - 1);
}

#[test]
fn average_of_no_frames_is_empty() {
    assert_eq!(average(&Vec::new()), Ok(Vec::new()));
}

#[test]
fn average_refuses_mixed_bin_counts() {
    let frames = vec![frame(0, &[(0, 1), (10, 2)]), frame(4, &[(0, 1)])];
    assert_eq!(average(&frames), Err(SpectrumError::InconsistentFrames));
}

#[test]
fn peak_finds_most_intense_bin() {
    let frames = vec![frame(0, &[(0, 1), (10, 5), (20, 9)]), frame(4, &[(0, 2), (10, 12), (20, 0)])];
    assert_eq!(peak(&frames), Ok(FrequencyInfo { hertz: 10, intensity: 12 }));
}

#[test]
fn peak_ties_go_to_lowest_frequency() {
    let frames = vec![frame(0, &[(0, 1), (10, 7), (20, 9)]), frame(4, &[(0, 9), (10, 7), (20, 9)])];
    assert_eq!(peak(&frames), Ok(FrequencyInfo { hertz: 0, intensity: 9 }));
}

#[test]
fn peak_refuses_mixed_bin_counts() {
    let frames = vec![frame(0, &[(0, 1), (10, 2)]), frame(4, &[(0, 1)])];
    assert_eq!(peak(&frames), Err(SpectrumError::InconsistentFrames));
}

#[test]
fn peak_of_binless_frames_is_empty_input() {
    let frames = vec![frame(0, &[]), frame(4, &[])];
    assert_eq!(peak(&frames), Err(SpectrumError::EmptyInput));
}
