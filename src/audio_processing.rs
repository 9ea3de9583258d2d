use vstd::prelude::*;

use crate::error::SpectrumError;

verus! {

/// One frequency bin: its centre frequency in hertz and its intensity.
#[derive(Clone, Copy, Debug, PartialEq, Eq, Structural)]
pub struct FrequencyInfo {
    pub hertz: u64,
    pub intensity: u64,
}

/// The bins of one window, ascending by frequency, and the window's start
/// time in milliseconds.
#[derive(Clone, Debug, PartialEq, Eq)]
pub struct WindowFrequencyInfo {
    pub time_offset: u64,
    pub frequencies: Vec<FrequencyInfo>,
}

/// The fraction of a window that consecutive windows share, as
/// `numerator / denominator`. It is usable when `0 <= numerator < denominator`.
#[derive(Clone, Copy, Debug, PartialEq, Eq, Structural)]
pub struct Overlap {
    pub numerator: i64,
    pub denominator: i64,
}

impl Overlap {
    /// The overlap lies in `[0, 1)`.
    pub open spec fn in_range(self) -> bool {
        0 <= self.numerator < self.denominator
    }
}

/// `floor(window_size * (1 - overlap))` for an overlap in range.
pub open spec fn step_of(window_size: nat, overlap: Overlap) -> int {
    (window_size * (overlap.denominator - overlap.numerator)) / (overlap.denominator as int)
}

/// A window size and overlap that segmentation accepts.
pub open spec fn valid_config(window_size: nat, overlap: Overlap) -> bool {
    &&& overlap.in_range()
    &&& window_size > 0
    &&& step_of(window_size, overlap) >= 1
}

proof fn lemma_step_bounded(window_size: nat, keep: int, den: int) by (nonlinear_arith)
    requires
        0 < keep <= den,
    ensures
        0 <= (window_size * keep) / den <= window_size,
{
}

/// The number of samples between the starts of consecutive windows.
pub fn step_size(window_size: usize, overlap: Overlap) -> (r: Result<usize, SpectrumError>)
    ensures
        match r {
            Ok(step) => valid_config(window_size as nat, overlap) && step == step_of(
                window_size as nat,
                overlap,
            ),
            Err(e) => !valid_config(window_size as nat, overlap) && e == SpectrumError::InvalidParameter,
        },
{
    if overlap.numerator < 0 || overlap.numerator >= overlap.denominator || window_size == 0 {
        return Err(SpectrumError::InvalidParameter);
    }
    let keep: u128 = (overlap.denominator - overlap.numerator) as u128;
    let den: u128 = overlap.denominator as u128;
    proof {
        lemma_step_bounded(window_size as nat, keep as int, den as int);
        assert((window_size as u128) * keep <= u64::MAX * u64::MAX) by (nonlinear_arith)
            requires
                window_size <= u64::MAX,
                keep <= u64::MAX,
        ;
    }
    let step: u128 = (window_size as u128 * keep) / den;
    if step < 1 {
        return Err(SpectrumError::InvalidParameter);
    }
    Ok(step as usize)
}


/// How many whole windows fit: `floor((len - window_size) / step) + 1`, or none
/// when the samples are shorter than one window.
pub open spec fn frame_count(len: nat, window_size: nat, step: nat) -> nat {
    if len >= window_size {
        ((len - window_size) as nat / step) + 1
    } else {
        0
    }
}

/// The `k`-th window: `window_size` samples starting at `k * step`.
pub open spec fn window_at(samples: Seq<i16>, k: int, window_size: nat, step: nat) -> Seq<i16> {
    samples.subrange(k * step, k * step + window_size)
}

proof fn lemma_div_position(d: int, step: int, k: int) by (nonlinear_arith)
    requires
        d >= 0,
        step > 0,
        k >= 0,
    ensures
        k * step <= d ==> k <= d / step,
        k * step > d ==> k > d / step,
{
}

/// A copy of `samples[start..end]`.
fn copy_range(samples: &Vec<i16>, start: usize, end: usize) -> (r: Vec<i16>)
    requires
        start <= end <= samples.len(),
    ensures
        r@ == samples@.subrange(start as int, end as int),
{
    let mut r: Vec<i16> = Vec::with_capacity(end - start);
    let mut i: usize = start;
    while i < end
        invariant
            start <= i <= end <= samples.len(),
            r@ == samples@.subrange(start as int, i as int),
        decreases end - i,
    {
        r.push(samples[i]);
        i = i + 1;
    }
    r
}

/// Splits `samples` into windows of `window_size` samples whose starts lie
/// `step_size(window_size, overlap)` apart, beginning at sample 0. Samples
/// after the last whole window are dropped; a buffer shorter than one window
/// gives no windows.
pub fn split_samples_into_windows(samples: &Vec<i16>, window_size: usize, overlap: Overlap) -> (r:
    Result<Vec<Vec<i16>>, SpectrumError>)
    ensures
        match r {
            Ok(frames) => {
                let step = step_of(window_size as nat, overlap) as nat;
                &&& valid_config(window_size as nat, overlap)
                &&& frames@.len() == frame_count(samples@.len(), window_size as nat, step)
                &&& forall|k: int|
                    0 <= k < frames@.len() ==> #[trigger] frames@[k]@ == window_at(
                        samples@,
                        k,
                        window_size as nat,
                        step,
                    )
            },
            Err(e) => !valid_config(window_size as nat, overlap) && e
                == SpectrumError::InvalidParameter,
        },
{
    let step = match step_size(window_size, overlap) {
        Ok(s) => s,
        Err(e) => {
            return Err(e);
        },
    };
    let ghost count = frame_count(samples@.len(), window_size as nat, step as nat);
    let mut frames: Vec<Vec<i16>> = Vec::new();
    if samples.len() < window_size {
        return Ok(frames);
    }
    proof {
        lemma_step_bounded(window_size as nat, overlap.denominator - overlap.numerator, overlap.denominator as int);
    }
    let last: usize = samples.len() - window_size;
    let mut start: usize = 0;
    let ghost mut k: int = 0;
    while start <= last
        invariant
            window_size <= samples.len(),
            last == samples.len() - window_size,
            1 <= step <= window_size,
            count == (last as nat / step as nat) + 1,
            0 <= k <= count,
            start == k * step,
            frames@.len() == k,
            forall|j: int|
                0 <= j < k ==> #[trigger] frames@[j]@ == window_at(
                    samples@,
                    j,
                    window_size as nat,
                    step as nat,
                ),
        decreases last + step - start,
    {
        proof {
            lemma_div_position(last as int, step as int, k);
        }
        let frame = copy_range(samples, start, start + window_size);
        frames.push(frame);
        start = start + step;
        proof {
            assert((k + 1) * step == k * step + step) by (nonlinear_arith);
            k = k + 1;
        }
    }
    proof {
        lemma_div_position(last as int, step as int, k);
    }
    Ok(frames)
}


proof fn lemma_disjoint_prefix(samples: Seq<i16>, window_size: nat, frames: Seq<Seq<i16>>, m: int)
    requires
        window_size > 0,
        frames.len() == frame_count(samples.len(), window_size, window_size),
        forall|k: int|
            0 <= k < frames.len() ==> #[trigger] frames[k] == window_at(
                samples,
                k,
                window_size,
                window_size,
            ),
        0 <= m <= frames.len(),
    ensures
        m * window_size <= samples.len(),
        frames.subrange(0, m).flatten_alt() == samples.subrange(0, m * window_size),
    decreases m,
{
    if m == 0 {
        assert(frames.subrange(0, 0).flatten_alt() =~= samples.subrange(0, 0));
    } else {
        let prev = m - 1;
        lemma_disjoint_prefix(samples, window_size, frames, prev);
        lemma_div_position(samples.len() - window_size, window_size as int, prev);
        assert(m * window_size == prev * window_size + window_size) by (nonlinear_arith)
            requires
                m == prev + 1,
        ;
        let pre = frames.subrange(0, m);
        assert(pre.drop_last() =~= frames.subrange(0, prev));
        assert(pre.last() == frames[prev]);
        assert(samples.subrange(0, prev * window_size) + samples.subrange(
            prev * window_size,
            prev * window_size + window_size,
        ) =~= samples.subrange(0, m * window_size));
    }
}

/// Windows that do not overlap, laid end to end in order, give back the
/// samples up to the end of the last whole window.
pub proof fn lemma_disjoint_windows_reconstruct(
    samples: Seq<i16>,
    window_size: nat,
    overlap: Overlap,
    frames: Seq<Seq<i16>>,
)
    requires
        valid_config(window_size, overlap),
        overlap.numerator == 0,
        frames.len() == frame_count(
            samples.len(),
            window_size,
            step_of(window_size, overlap) as nat,
        ),
        forall|k: int|
            0 <= k < frames.len() ==> #[trigger] frames[k] == window_at(
                samples,
                k,
                window_size,
                step_of(window_size, overlap) as nat,
            ),
    ensures
        frames.flatten() == samples.subrange(0, (frames.len() * window_size) as int),
{
    assert(step_of(window_size, overlap) == window_size) by (nonlinear_arith)
        requires
            overlap.numerator == 0,
            overlap.denominator > 0,
            step_of(window_size, overlap) == (window_size * (overlap.denominator
                - overlap.numerator)) / (overlap.denominator as int),
    ;
    lemma_disjoint_prefix(samples, window_size, frames, frames.len() as int);
    assert(frames.subrange(0, frames.len() as int) =~= frames);
    frames.lemma_flatten_and_flatten_alt_are_equivalent();
}

/// The mean of two samples, rounded down.
pub open spec fn mid_sample(a: i16, b: i16) -> int {
    (a + b) / 2
}

/// Reduces interleaved stereo samples `l0 r0 l1 r1 ...` to one channel:
/// sample `i` is the mean of `l_i` and `r_i`, rounded down. A trailing
/// unpaired sample is dropped.
pub fn interleaved_to_single_channel(samples: &Vec<i16>) -> (r: Vec<i16>)
    ensures
        r@.len() == samples@.len() / 2,
        forall|i: int|
            0 <= i < r@.len() ==> #[trigger] r@[i] == mid_sample(samples@[2 * i], samples@[2 * i + 1]),
{
    let len: usize = samples.len();
    let pairs: usize = len / 2;
    let mut r: Vec<i16> = Vec::with_capacity(pairs);
    let mut i: usize = 0;
    while i < pairs
        invariant
            pairs == samples@.len() / 2,
            len == samples@.len(),
            2 * pairs <= len,
            i <= pairs,
            r@.len() == i,
            forall|j: int|
                0 <= j < i ==> #[trigger] r@[j] == mid_sample(samples@[2 * j], samples@[2 * j + 1]),
        decreases pairs - i,
    {
        let left: i32 = samples[2 * i] as i32;
        let right: i32 = samples[2 * i + 1] as i32;
        // shifted to be non-negative, so that the division rounds down
        let shifted: i32 = left + right + 65536;
        let mean: i32 = shifted / 2 - 32768;
        r.push(mean as i16);
        i = i + 1;
    }
    r
}

} // verus!
