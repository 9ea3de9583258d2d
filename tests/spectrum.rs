use kazaam::audio_processing::Overlap;
use kazaam::error::SpectrumError;
use kazaam::spectrum::{extract_frequencies, magnitude, spectral_frames, time_offset_ms, Complex};
use kazaam::window::remove_dc;

fn c(re: i64, im: i64) -> Complex {
    Complex { re, im }
}

#[test]
fn magnitude_is_rounded_down_norm() {
    assert_eq!(magnitude(c(3, 4)), 5);
    assert_eq!(magnitude(c(0, 0)), 0);
    assert_eq!(magnitude(c(1, 1)), 1);
    assert_eq!(magnitude(c(-5, 12)), 13);
    assert_eq!(magnitude(c(i64::MIN, 0)), 1u64 << 63);
    assert_eq!(magnitude(c(i64::MIN, i64::MIN)), 13043817825332782212);
}

#[test]
fn dc_removal_scales_by_length() {
    assert_eq!(remove_dc(&vec![1, 2, 3, 6]), vec![-8, -4, 0, 12]);
    assert_eq!(remove_dc(&Vec::new()), Vec::<i128>::new());
}

#[test]
fn constant_frame_centres_to_zero() {
    assert_eq!(remove_dc(&vec![-1234; 16]), vec![0; 16]);
    assert_eq!(remove_dc(&vec![32767; 5]), vec![0; 5]);
}

#[test]
fn extraction_keeps_lower_half_with_labels() {
    let spectrum = vec![c(3, 4), c(0, 8), c(6, 8), c(1, 0), c(1, 0), c(6, 8), c(0, 8), c(3, 4)];
    let frame = extract_frequencies(&spectrum, 8000, 8, 250, false).unwrap();
    assert_eq!(frame.time_offset, 250);
    let pairs: Vec<(u64, u64)> = frame.frequencies.iter().map(|f| (f.hertz, f.intensity)).collect();
    assert_eq!(pairs, vec![(0, 5), (1000, 8), (2000, 10), (3000, 1)]);
}

#[test]
fn extraction_normalizes_by_window_size() {
    let spectrum = vec![c(30, 40), c(0, 17), c(7, 0), c(0, 0)];
    let frame = extract_frequencies(&spectrum, 44100, 4, 0, true).unwrap();
    let pairs: Vec<(u64, u64)> = frame.frequencies.iter().map(|f| (f.hertz, f.intensity)).collect();
    assert_eq!(pairs, vec![(0, 12), (11025, 4)]);
}

#[test]
fn extraction_rounds_frequencies_down() {
    let spectrum = vec![c(0, 0); 2048];
    let frame = extract_frequencies(&spectrum, 44100, 2048, 0, false).unwrap();
    assert_eq!(frame.frequencies.len(), 1024);
    assert_eq!(frame.frequencies[20].hertz, 430);
    assert_eq!(frame.frequencies[1023].hertz, 22028);
}

#[test]
fn extraction_rejects_bad_parameters() {
    let spectrum = vec![c(1, 1); 8];
    assert_eq!(extract_frequencies(&spectrum, 0, 8, 0, false), Err(SpectrumError::InvalidParameter));
    assert_eq!(extract_frequencies(&spectrum, 8000, 4, 0, false), Err(SpectrumError::InvalidParameter));
    assert_eq!(extract_frequencies(&Vec::new(), 8000, 0, 0, false), Err(SpectrumError::InvalidParameter));
}

#[test]
fn time_offsets_use_whole_milliseconds_per_step() {
    assert_eq!(time_offset_ms(0, 204, 44100), 0);
    assert_eq!(time_offset_ms(1, 204, 44100), 4);
    assert_eq!(time_offset_ms(10, 204, 44100), 40);
    assert_eq!(time_offset_ms(3, 44100, 44100), 3000);
}

#[test]
fn frame_offsets_advance_by_one_step() {
    let spectra = vec![vec![c(1, 0); 1024]; 5];
    let frames = spectral_frames(&spectra, 44100, 1024, Overlap { numerator: 4, denominator: 5 }, false).unwrap();
    let offsets: Vec<u64> = frames.iter().map(|f| f.time_offset).collect();
    assert_eq!(offsets, vec![0, 4, 8, 12, 16]);
    for f in &frames {
        assert_eq!(f.frequencies.len(), 512);
        assert_eq!(f.frequencies[1].hertz, 43);
    }
}

#[test]
fn frames_need_valid_configuration() {
    let spectra = vec![vec![c(1, 0); 1024]; 2];
    let half = Overlap { numerator: 1, denominator: 2 };
    assert_eq!(spectral_frames(&spectra, 0, 1024, half, false), Err(SpectrumError::InvalidParameter));
    assert_eq!(
        spectral_frames(&spectra, 44100, 1024, Overlap { numerator: 1, denominator: 1 }, false),
        Err(SpectrumError::InvalidParameter)
    );
    let uneven = vec![vec![c(1, 0); 1024], vec![c(1, 0); 1000]];
    assert_eq!(spectral_frames(&uneven, 44100, 1024, half, false), Err(SpectrumError::InvalidParameter));
}
