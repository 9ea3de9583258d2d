use vstd::prelude::*;

verus! {

#[verifier::external_type_specification]
#[verifier::external_body]
pub struct ExWavError(hound::Error);

/// The bytes of the 16-bit integer PCM WAVE file that hound writes for
/// `samples` with the given channel count and sample rate.
pub uninterp spec fn wav_file_of(samples: Seq<i16>, channels: u16, sample_rate: u32) -> Seq<u8>;

/// The length of the header before the sample data: the plain PCM format
/// chunk for up to two channels, the extensible one beyond.
pub open spec fn wav_header_len(channels: u16) -> nat {
    if channels > 2 {
        68
    } else {
        44
    }
}

/// The 16 bits of a sample read as an unsigned number.
pub open spec fn sample_word(s: i16) -> nat {
    if s < 0 {
        (s + 65536) as nat
    } else {
        s as nat
    }
}

/// `bytes` are a header followed by each sample as two little-endian bytes.
pub open spec fn holds_samples_after_header(bytes: Seq<u8>, samples: Seq<i16>, channels: u16) -> bool {
    let h = wav_header_len(channels);
    &&& bytes.len() == h + 2 * samples.len()
    &&& forall|i: int|
        0 <= i < samples.len() ==> {
            &&& #[trigger] bytes[h + 2 * i] == sample_word(samples[i]) % 256
            &&& bytes[h + 2 * i + 1] == sample_word(samples[i]) / 256
        }
}

/// The byte rate and the file size fit the 32-bit fields of the header.
pub open spec fn wav_sizes_fit(sample_count: nat, channels: u16, sample_rate: u32) -> bool {
    &&& sample_rate * 2 * channels <= u32::MAX
    &&& 2 * sample_count + wav_header_len(channels) - 8 <= u32::MAX
}

/// Relies on hound's `WavWriter::new`, `write_sample` and `finalize` writing
/// 16-bit integer samples into an in-memory cursor: the file is a header of
/// `wav_header_len(channels)` bytes followed by each sample as two
/// little-endian bytes, and `finalize` fails (`UnfinishedSample`) exactly when
/// the sample count is not a multiple of the channel count; writes to memory
/// do not fail. hound divides by the channel count and the sample rate and
/// adds up sizes in `u32`, hence the precondition.
#[verifier::external_body]
fn write_wav(samples: &Vec<i16>, channels: u16, sample_rate: u32) -> (r: Result<Vec<u8>, hound::Error>)
    requires
        channels > 0,
        sample_rate > 0,
        wav_sizes_fit(samples@.len(), channels, sample_rate),
    ensures
        r is Ok <==> samples@.len() % (channels as nat) == 0,
        r matches Ok(bytes) ==> bytes@ == wav_file_of(samples@, channels, sample_rate),
        r matches Ok(bytes) ==> holds_samples_after_header(bytes@, samples@, channels),
{
    let mut cursor = std::io::Cursor::new(Vec::new());
    let spec = hound::WavSpec {
        channels,
        sample_rate,
        bits_per_sample: 16,
        sample_format: hound::SampleFormat::Int,
    };
    let mut writer = hound::WavWriter::new(&mut cursor, spec)?;
    for &s in samples.iter() {
        writer.write_sample(s)?;
    }
    writer.finalize()?;
    Ok(cursor.into_inner())
}

/// Why samples could not be encoded as a WAVE file.
#[derive(Clone, Copy, Debug, PartialEq, Eq, Structural)]
pub enum WavError {
    /// The channel count is zero.
    NoChannels,
    /// The sample rate is zero.
    NoSampleRate,
    /// The byte rate or the file size does not fit the header's 32-bit fields.
    TooLong,
    /// The sample count is not a multiple of the channel count.
    UnfinishedFrame,
}

/// Encodes interleaved 16-bit samples as a PCM WAVE file in memory.
pub fn encode_wav(samples: &Vec<i16>, channels: u16, sample_rate: u32) -> (r: Result<Vec<u8>, WavError>)
    ensures
        channels == 0 ==> r == Err::<Vec<u8>, WavError>(WavError::NoChannels),
        channels > 0 && sample_rate == 0 ==> r == Err::<Vec<u8>, WavError>(WavError::NoSampleRate),
        channels > 0 && sample_rate > 0 && !wav_sizes_fit(samples@.len(), channels, sample_rate)
            ==> r == Err::<Vec<u8>, WavError>(WavError::TooLong),
        channels > 0 && sample_rate > 0 && wav_sizes_fit(samples@.len(), channels, sample_rate) ==> {
            if samples@.len() % (channels as nat) == 0 {
                &&& r is Ok
                &&& r->Ok_0@ == wav_file_of(samples@, channels, sample_rate)
                &&& holds_samples_after_header(r->Ok_0@, samples@, channels)
            } else {
                r == Err::<Vec<u8>, WavError>(WavError::UnfinishedFrame)
            }
        },
{
    if channels == 0 {
        return Err(WavError::NoChannels);
    }
    if sample_rate == 0 {
        return Err(WavError::NoSampleRate);
    }
    let header: u64 = if channels > 2 {
        68
    } else {
        44
    };
    proof {
        assert(sample_rate * 2 * channels <= 0xffff_ffff * 2 * 0xffff) by (nonlinear_arith)
            requires
                sample_rate <= 0xffff_ffff,
                channels <= 0xffff,
        ;
    }
    let byte_rate: u64 = sample_rate as u64 * 2 * channels as u64;
    let len: usize = samples.len();
    if byte_rate > 0xffff_ffff || len as u128 * 2 + header as u128 - 8 > 0xffff_ffff {
        return Err(WavError::TooLong);
    }
    match write_wav(samples, channels, sample_rate) {
        Ok(bytes) => Ok(bytes),
        Err(_) => Err(WavError::UnfinishedFrame),
    }
}

} // verus!
