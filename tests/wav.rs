use std::io::Cursor;

use kazaam::wav::{encode_wav, WavError};

#[test]
fn mono_file_has_header_then_little_endian_samples() {
    let bytes = encode_wav(&vec![1, -2, 300], 1, 8000).unwrap();
    assert_eq!(bytes.len(), 44 + 6);
    assert_eq!(&bytes[0..4], b"RIFF");
    assert_eq!(&bytes[8..12], b"WAVE");
    assert_eq!(&bytes[44..], &[1, 0, 0xfe, 0xff, 0x2c, 0x01]);
}

#[test]
fn encoded_file_reads_back() {
    let samples: Vec<i16> = vec![0, 32767, -32768, 5, -5, 1000];
    let bytes = encode_wav(&samples, 2, 44100).unwrap();
    let mut reader = hound::WavReader::new(Cursor::new(bytes)).unwrap();
    let spec = reader.spec();
    assert_eq!(spec.channels, 2);
    assert_eq!(spec.sample_rate, 44100);
    assert_eq!(spec.bits_per_sample, 16);
    let read: Vec<i16> = reader.samples::<i16>().map(|s| s.unwrap()).collect();
    assert_eq!(read, samples);
}

#[test]
fn many_channels_use_the_longer_header() {
    let bytes = encode_wav(&vec![7; 6], 3, 8000).unwrap();
    assert_eq!(bytes.len(), 68 + 12);
    assert_eq!(&bytes[68..70], &[7, 0]);
}

#[test]
fn empty_recording_is_just_a_header() {
    assert_eq!(encode_wav(&Vec::new(), 1, 8000).unwrap().len(), 44);
}

#[test]
fn wav_parameters_are_checked() {
    assert_eq!(encode_wav(&vec![1, 2], 0, 8000), Err(WavError::NoChannels));
    assert_eq!(encode_wav(&vec![1, 2], 1, 0), Err(WavError::NoSampleRate));
    assert_eq!(encode_wav(&vec![1, 2], 1, u32::MAX), Err(WavError::TooLong));
    assert_eq!(encode_wav(&vec![1, 2, 3], 2, 8000), Err(WavError::UnfinishedFrame));
}
