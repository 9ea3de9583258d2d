use vstd::prelude::*;

use crate::audio_processing::{FrequencyInfo, WindowFrequencyInfo};
use crate::audio_processing::{step_of, step_size, valid_config, Overlap};
use crate::error::SpectrumError;

verus! {

/// A complex spectrum value in fixed point: real and imaginary parts.
#[derive(Clone, Copy, Debug, PartialEq, Eq, Structural)]
pub struct Complex {
    pub re: i64,
    pub im: i64,
}

/// The squared Euclidean norm `re^2 + im^2`.
pub open spec fn norm_squared(c: Complex) -> nat {
    (c.re * c.re + c.im * c.im) as nat
}

/// `r` is the square root of `n` rounded down.
pub open spec fn is_floor_sqrt(r: nat, n: nat) -> bool {
    r * r <= n < (r + 1) * (r + 1)
}

/// The largest `r` with `r * r <= n`.
pub open spec fn floor_sqrt(n: nat) -> nat {
    choose|r: nat| #[trigger] is_floor_sqrt(r, n)
}

proof fn lemma_floor_sqrt_unique(n: nat, r: nat)
    requires
        r * r <= n < (r + 1) * (r + 1),
    ensures
        floor_sqrt(n) == r,
{
    assert(is_floor_sqrt(r, n));
    let s = floor_sqrt(n);
    assert(s * s <= n < (s + 1) * (s + 1));
    assert(s == r) by (nonlinear_arith)
        requires
            s * s <= n < (s + 1) * (s + 1),
            r * r <= n < (r + 1) * (r + 1),
    ;
}

/// The integer square root of `n`, rounded down.
fn isqrt(n: u128) -> (r: u64)
    ensures
        r * r <= n < (r + 1) * (r + 1),
        r == floor_sqrt(n as nat),
{
    // lo * lo <= n < hi * hi throughout
    let mut lo: u128 = 0;
    let mut hi: u128 = 0x1_0000_0000_0000_0000;
    assert(n < hi * hi);
    while hi - lo > 1
        invariant
            lo < hi <= 0x1_0000_0000_0000_0000,
            lo * lo <= n < hi * hi,
        decreases hi - lo,
    {
        let mid: u128 = lo + (hi - lo) / 2;
        proof {
            assert(mid * mid < 0x1_0000_0000_0000_0000 * 0x1_0000_0000_0000_0000) by (nonlinear_arith)
                requires
                    mid < 0x1_0000_0000_0000_0000,
            ;
        }
        if mid * mid <= n {
            lo = mid;
        } else {
            hi = mid;
        }
    }
    proof {
        lemma_floor_sqrt_unique(n as nat, lo as nat);
    }
    lo as u64
}

/// The Euclidean norm of `c`, rounded down.
pub fn magnitude(c: Complex) -> (r: u64)
    ensures
        r * r <= norm_squared(c) < (r + 1) * (r + 1),
        r == floor_sqrt(norm_squared(c)),
{
    let re: i128 = c.re as i128;
    let im: i128 = c.im as i128;
    proof {
        assert(0 <= re * re <= 0x4000_0000_0000_0000_0000_0000_0000_0000) by (nonlinear_arith)
            requires
                -0x8000_0000_0000_0000 <= re <= 0x8000_0000_0000_0000,
        ;
        assert(0 <= im * im <= 0x4000_0000_0000_0000_0000_0000_0000_0000) by (nonlinear_arith)
            requires
                -0x8000_0000_0000_0000 <= im <= 0x8000_0000_0000_0000,
        ;
    }
    let sq: u128 = (re * re) as u128 + (im * im) as u128;
    isqrt(sq)
}


/// The centre frequency of bin `i`: `i * sample_rate / window_size`.
pub open spec fn bin_hertz(i: int, sample_rate: nat, window_size: nat) -> int {
    (i * sample_rate) / (window_size as int)
}

/// The intensity of one bin: the magnitude of its value, divided by the
/// window size when `normalize` is set.
pub open spec fn bin_intensity(c: Complex, window_size: nat, normalize: bool) -> nat {
    if normalize {
        floor_sqrt(norm_squared(c)) / window_size
    } else {
        floor_sqrt(norm_squared(c))
    }
}

/// `bins` are the lower `window_size / 2` bins of `spectrum`, labelled with
/// their frequencies, in order.
pub open spec fn labels_spectrum(
    bins: Seq<FrequencyInfo>,
    spectrum: Seq<Complex>,
    sample_rate: nat,
    window_size: nat,
    normalize: bool,
) -> bool {
    &&& bins.len() == window_size / 2
    &&& forall|i: int|
        0 <= i < bins.len() ==> {
            &&& (#[trigger] bins[i]).hertz == bin_hertz(i, sample_rate, window_size)
            &&& bins[i].intensity == bin_intensity(spectrum[i], window_size, normalize)
        }
}

/// The start time of window `k` in milliseconds: `k * (step * 1000 / sample_rate)`.
pub open spec fn frame_time_ms(k: nat, step: nat, sample_rate: nat) -> nat {
    k * ((step * 1000) / sample_rate)
}

proof fn lemma_bin_hertz_bounded(i: int, sample_rate: int, window_size: int) by (nonlinear_arith)
    requires
        0 <= i < window_size,
        0 <= sample_rate,
    ensures
        (i * sample_rate) / (window_size as int) <= sample_rate,
{
}

/// Turns the spectrum of one window into labelled bins. Only the lower
/// `window_size / 2` bins are kept, since the upper half mirrors them for a
/// real input. Bin `i` is labelled `i * sample_rate / window_size` hertz;
/// its intensity is the magnitude of `spectrum[i]`, divided by `window_size`
/// when `normalize` is set.
pub fn extract_frequencies(
    spectrum: &Vec<Complex>,
    sample_rate: u32,
    window_size: usize,
    time_offset: u64,
    normalize: bool,
) -> (r: Result<WindowFrequencyInfo, SpectrumError>)
    ensures
        match r {
            Ok(frame) => {
                &&& sample_rate > 0 && window_size > 0 && spectrum@.len() == window_size
                &&& frame.time_offset == time_offset
                &&& labels_spectrum(
                    frame.frequencies@,
                    spectrum@,
                    sample_rate as nat,
                    window_size as nat,
                    normalize,
                )
            },
            Err(e) => {
                &&& sample_rate == 0 || window_size == 0 || spectrum@.len() != window_size
                &&& e == SpectrumError::InvalidParameter
            },
        },
{
    if sample_rate == 0 || window_size == 0 || spectrum.len() != window_size {
        return Err(SpectrumError::InvalidParameter);
    }
    let half: usize = window_size / 2;
    let mut bins: Vec<FrequencyInfo> = Vec::with_capacity(half);
    let mut i: usize = 0;
    while i < half
        invariant
            sample_rate > 0,
            window_size > 0,
            spectrum@.len() == window_size,
            half == window_size / 2,
            i <= half,
            bins@.len() == i,
            forall|j: int|
                0 <= j < i ==> {
                    &&& (#[trigger] bins@[j]).hertz == bin_hertz(
                        j,
                        sample_rate as nat,
                        window_size as nat,
                    )
                    &&& bins@[j].intensity == bin_intensity(
                        spectrum@[j],
                        window_size as nat,
                        normalize,
                    )
                },
        decreases half - i,
    {
        let m: u64 = magnitude(spectrum[i]);
        let intensity: u64 = if normalize {
            m / (window_size as u64)
        } else {
            m
        };
        proof {
            lemma_bin_hertz_bounded(i as int, sample_rate as int, window_size as int);
            assert((i as u128) * (sample_rate as u128) <= 0xffff_ffff_ffff_ffff * 0xffff_ffff)
                by (nonlinear_arith)
                requires
                    i <= 0xffff_ffff_ffff_ffff,
                    sample_rate <= 0xffff_ffff,
            ;
        }
        let hertz: u128 = (i as u128 * sample_rate as u128) / (window_size as u128);
        bins.push(FrequencyInfo { hertz: hertz as u64, intensity });
        i = i + 1;
    }
    Ok(WindowFrequencyInfo { time_offset, frequencies: bins })
}

/// The start time in milliseconds of window `index` when windows start
/// `step` samples apart: `index * (step * 1000 / sample_rate)`.
pub fn time_offset_ms(index: usize, step: usize, sample_rate: u32) -> (r: u64)
    requires
        sample_rate > 0,
        index * step * 1000 <= u64::MAX,
    ensures
        r == frame_time_ms(index as nat, step as nat, sample_rate as nat),
{
    let per_window: u128 = (step as u128 * 1000) / (sample_rate as u128);
    proof {
        assert(index * ((step * 1000) / (sample_rate as int)) <= index * step * 1000)
            by (nonlinear_arith)
            requires
                sample_rate >= 1,
                index >= 0,
                step >= 0,
        ;
    }
    (index as u128 * per_window) as u64
}

/// Window `k` starts `step * 1000 / sample_rate` milliseconds after window
/// `k - 1`; when a step lasts at least one millisecond the start times
/// strictly increase.
pub proof fn lemma_time_offsets_advance(k: nat, step: nat, sample_rate: nat)
    requires
        sample_rate > 0,
    ensures
        frame_time_ms(k + 1, step, sample_rate) == frame_time_ms(k, step, sample_rate) + (step
            * 1000) / sample_rate,
        step * 1000 >= sample_rate ==> frame_time_ms(k + 1, step, sample_rate) > frame_time_ms(
            k,
            step,
            sample_rate,
        ),
{
    let per = (step * 1000) / sample_rate;
    assert((k + 1) * per == k * per + per) by (nonlinear_arith);
    if step * 1000 >= sample_rate {
        assert(per >= 1) by (nonlinear_arith)
            requires
                step * 1000 >= sample_rate,
                sample_rate > 0,
                per == (step * 1000) / sample_rate,
        ;
    }
}


/// Labels the spectra of consecutive windows of one run. Window `k` gets
/// start time `k * (step * 1000 / sample_rate)` milliseconds, where `step`
/// is `step_size(window_size, overlap)`, and the bins of `spectra[k]` as
/// `extract_frequencies` gives them.
pub fn spectral_frames(
    spectra: &Vec<Vec<Complex>>,
    sample_rate: u32,
    window_size: usize,
    overlap: Overlap,
    normalize: bool,
) -> (r: Result<Vec<WindowFrequencyInfo>, SpectrumError>)
    requires
        spectra@.len() * window_size * 1000 <= u64::MAX,
    ensures
        match r {
            Ok(frames) => {
                let step = step_of(window_size as nat, overlap) as nat;
                &&& valid_config(window_size as nat, overlap)
                &&& sample_rate > 0
                &&& frames@.len() == spectra@.len()
                &&& forall|k: int|
                    0 <= k < spectra@.len() ==> (#[trigger] spectra@[k])@.len() == window_size
                &&& forall|k: int|
                    0 <= k < frames@.len() ==> {
                        &&& (#[trigger] frames@[k]).time_offset == frame_time_ms(
                            k as nat,
                            step,
                            sample_rate as nat,
                        )
                        &&& labels_spectrum(
                            frames@[k].frequencies@,
                            spectra@[k]@,
                            sample_rate as nat,
                            window_size as nat,
                            normalize,
                        )
                    }
            },
            Err(e) => {
                &&& !valid_config(window_size as nat, overlap) || sample_rate == 0 || exists|k: int|
                    0 <= k < spectra@.len() && (#[trigger] spectra@[k])@.len() != window_size
                &&& e == SpectrumError::InvalidParameter
            },
        },
{
    let step: usize = match step_size(window_size, overlap) {
        Ok(s) => s,
        Err(e) => {
            return Err(e);
        },
    };
    if sample_rate == 0 {
        return Err(SpectrumError::InvalidParameter);
    }
    proof {
        assert(step <= window_size) by (nonlinear_arith)
            requires
                overlap.in_range(),
                step == (window_size * (overlap.denominator - overlap.numerator)) / (
                overlap.denominator as int),
        ;
    }
    let n: usize = spectra.len();
    let mut frames: Vec<WindowFrequencyInfo> = Vec::with_capacity(n);
    let mut k: usize = 0;
    while k < n
        invariant
            n == spectra@.len(),
            n * window_size * 1000 <= u64::MAX,
            1 <= step <= window_size,
            step == step_of(window_size as nat, overlap),
            sample_rate > 0,
            k <= n,
            frames@.len() == k,
            forall|j: int| 0 <= j < k ==> (#[trigger] spectra@[j])@.len() == window_size,
            forall|j: int|
                0 <= j < k ==> {
                    &&& (#[trigger] frames@[j]).time_offset == frame_time_ms(
                        j as nat,
                        step as nat,
                        sample_rate as nat,
                    )
                    &&& labels_spectrum(
                        frames@[j].frequencies@,
                        spectra@[j]@,
                        sample_rate as nat,
                        window_size as nat,
                        normalize,
                    )
                },
        decreases n - k,
    {
        proof {
            assert(k * step * 1000 <= n * window_size * 1000) by (nonlinear_arith)
                requires
                    k <= n,
                    step <= window_size,
            ;
        }
        let offset: u64 = time_offset_ms(k, step, sample_rate);
        match extract_frequencies(&spectra[k], sample_rate, window_size, offset, normalize) {
            Ok(frame) => {
                frames.push(frame);
            },
            Err(e) => {
                return Err(e);
            },
        }
        k = k + 1;
    }
    Ok(frames)
}

} // verus!
