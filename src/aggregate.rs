use vstd::prelude::*;

use crate::audio_processing::{FrequencyInfo, WindowFrequencyInfo};
use crate::error::SpectrumError;
use crate::spectrum::{labels_spectrum, Complex};

verus! {

/// Every frame has as many bins as the first one.
pub open spec fn bin_counts_agree(frames: Seq<WindowFrequencyInfo>) -> bool {
    forall|k: int|
        0 <= k < frames.len() ==> (#[trigger] frames[k]).frequencies@.len()
            == frames[0].frequencies@.len()
}

/// The sum over `frames` of the intensity of bin `i`.
pub open spec fn column_sum(frames: Seq<WindowFrequencyInfo>, i: int) -> int
    decreases frames.len(),
{
    if frames.len() == 0 {
        0
    } else {
        column_sum(frames.drop_last(), i) + frames.last().frequencies@[i].intensity
    }
}

/// Bin `i` of frame `k` exists.
pub open spec fn is_cell(frames: Seq<WindowFrequencyInfo>, k: int, i: int) -> bool {
    0 <= k < frames.len() && 0 <= i < frames[k].frequencies@.len()
}

/// `p` is a bin of some frame, no bin is more intense, and no bin as intense
/// has a lower frequency.
pub open spec fn is_peak(frames: Seq<WindowFrequencyInfo>, p: FrequencyInfo) -> bool {
    &&& exists|k: int, i: int| is_cell(frames, k, i) && #[trigger] frames[k].frequencies@[i] == p
    &&& forall|k: int, i: int|
        is_cell(frames, k, i) ==> (#[trigger] frames[k].frequencies@[i]).intensity <= p.intensity
    &&& forall|k: int, i: int|
        is_cell(frames, k, i) && (#[trigger] frames[k].frequencies@[i]).intensity == p.intensity
            ==> p.hertz <= frames[k].frequencies@[i].hertz
}

/// Tells whether all frames have the same number of bins.
fn check_bin_counts(frames: &Vec<WindowFrequencyInfo>) -> (r: bool)
    requires
        frames@.len() > 0,
    ensures
        r == bin_counts_agree(frames@),
{
    let nb: usize = frames[0].frequencies.len();
    let mut k: usize = 0;
    while k < frames.len()
        invariant
            k <= frames@.len(),
            nb == frames@[0].frequencies@.len(),
            forall|j: int| 0 <= j < k ==> (#[trigger] frames@[j]).frequencies@.len() == nb,
        decreases frames@.len() - k,
    {
        if frames[k].frequencies.len() != nb {
            return false;
        }
        k = k + 1;
    }
    true
}

/// The per-bin average of the frames: bin `i` of the result has the
/// frequency of bin `i` of the first frame and, as intensity, the sum of the
/// intensities of bin `i` over all frames divided by the number of frames
/// (rounded down). No frames give an empty average; frames with differing
/// bin counts are refused.
pub fn average(frames: &Vec<WindowFrequencyInfo>) -> (r: Result<Vec<FrequencyInfo>, SpectrumError>)
    ensures
        match r {
            Ok(avg) => {
                &&& bin_counts_agree(frames@)
                &&& frames@.len() == 0 ==> avg@.len() == 0
                &&& forall|k: int|
                    0 <= k < frames@.len() ==> avg@.len() == (#[trigger] frames@[k]).frequencies@.len()
                &&& frames@.len() > 0 ==> {
                    &&& avg@.len() == frames@[0].frequencies@.len()
                    &&& forall|i: int|
                        0 <= i < avg@.len() ==> {
                            &&& (#[trigger] avg@[i]).hertz == frames@[0].frequencies@[i].hertz
                            &&& avg@[i].intensity == column_sum(frames@, i) / (frames@.len() as int)
                        }
                }
            },
            Err(e) => !bin_counts_agree(frames@) && e == SpectrumError::InconsistentFrames,
        },
{
    let n: usize = frames.len();
    let mut avg: Vec<FrequencyInfo> = Vec::new();
    if n == 0 {
        return Ok(avg);
    }
    if !check_bin_counts(frames) {
        return Err(SpectrumError::InconsistentFrames);
    }
    let nb: usize = frames[0].frequencies.len();
    let mut i: usize = 0;
    while i < nb
        invariant
            n == frames@.len(),
            n > 0,
            nb == frames@[0].frequencies@.len(),
            bin_counts_agree(frames@),
            i <= nb,
            avg@.len() == i,
            forall|j: int|
                0 <= j < i ==> {
                    &&& (#[trigger] avg@[j]).hertz == frames@[0].frequencies@[j].hertz
                    &&& avg@[j].intensity == column_sum(frames@, j) / (n as int)
                },
        decreases nb - i,
    {
        let mut sum: u128 = 0;
        let mut k: usize = 0;
        while k < n
            invariant
                n == frames@.len(),
                nb == frames@[0].frequencies@.len(),
                bin_counts_agree(frames@),
                i < nb,
                k <= n,
                sum == column_sum(frames@.subrange(0, k as int), i as int),
                sum <= k * 0xffff_ffff_ffff_ffff,
            decreases n - k,
        {
            assert(frames@.subrange(0, k + 1).drop_last() =~= frames@.subrange(0, k as int));
            let x: u64 = frames[k].frequencies[i].intensity;
            proof {
                assert((k + 1) * 0xffff_ffff_ffff_ffff <= 0x1_0000_0000_0000_0000
                    * 0xffff_ffff_ffff_ffff) by (nonlinear_arith)
                    requires
                        k < 0xffff_ffff_ffff_ffff,
                ;
            }
            sum = sum + x as u128;
            k = k + 1;
        }
        assert(frames@.subrange(0, n as int) =~= frames@);
        proof {
            assert((sum as int) / (n as int) <= 0xffff_ffff_ffff_ffff) by (nonlinear_arith)
                requires
                    n > 0,
                    sum <= n * 0xffff_ffff_ffff_ffff,
            ;
        }
        let mean: u128 = sum / (n as u128);
        avg.push(FrequencyInfo { hertz: frames[0].frequencies[i].hertz, intensity: mean as u64 });
        i = i + 1;
    }
    Ok(avg)
}


/// The strongest bin over all frames: the most intense one, and among equally
/// intense ones the one with the lowest frequency. Fails with `EmptyInput`
/// when there is no bin at all, and with `InconsistentFrames` when the
/// frames' bin counts differ.
pub fn peak(frames: &Vec<WindowFrequencyInfo>) -> (r: Result<FrequencyInfo, SpectrumError>)
    ensures
        frames@.len() == 0 ==> r == Err::<FrequencyInfo, SpectrumError>(SpectrumError::EmptyInput),
        frames@.len() > 0 && !bin_counts_agree(frames@) ==> r == Err::<FrequencyInfo, SpectrumError>(
            SpectrumError::InconsistentFrames,
        ),
        frames@.len() > 0 && bin_counts_agree(frames@) && frames@[0].frequencies@.len() == 0 ==> r
            == Err::<FrequencyInfo, SpectrumError>(SpectrumError::EmptyInput),
        frames@.len() > 0 && bin_counts_agree(frames@) && frames@[0].frequencies@.len() > 0 ==> {
            &&& r is Ok
            &&& is_peak(frames@, r->Ok_0)
        },
{
    let n: usize = frames.len();
    if n == 0 {
        return Err(SpectrumError::EmptyInput);
    }
    if !check_bin_counts(frames) {
        return Err(SpectrumError::InconsistentFrames);
    }
    let nb: usize = frames[0].frequencies.len();
    if nb == 0 {
        return Err(SpectrumError::EmptyInput);
    }
    let mut best: FrequencyInfo = frames[0].frequencies[0];
    let ghost mut wk: int = 0;
    let ghost mut wi: int = 0;
    let mut k: usize = 0;
    while k < n
        invariant
            n == frames@.len(),
            nb == frames@[0].frequencies@.len(),
            bin_counts_agree(frames@),
            k <= n,
            is_cell(frames@, wk, wi),
            frames@[wk].frequencies@[wi] == best,
            forall|k2: int, i2: int|
                0 <= k2 < k && 0 <= i2 < nb ==> (#[trigger] frames@[k2].frequencies@[i2]).intensity
                    <= best.intensity,
            forall|k2: int, i2: int|
                0 <= k2 < k && 0 <= i2 < nb && (#[trigger] frames@[k2].frequencies@[i2]).intensity
                    == best.intensity ==> best.hertz <= frames@[k2].frequencies@[i2].hertz,
        decreases n - k,
    {
        assert(frames@[k as int].frequencies@.len() == nb);
        let mut i: usize = 0;
        while i < nb
            invariant
                n == frames@.len(),
                nb == frames@[0].frequencies@.len(),
                bin_counts_agree(frames@),
                k < n,
                frames@[k as int].frequencies@.len() == nb,
                i <= nb,
                is_cell(frames@, wk, wi),
                frames@[wk].frequencies@[wi] == best,
                forall|k2: int, i2: int|
                    ((0 <= k2 < k && 0 <= i2 < nb) || (k2 == k && 0 <= i2 < i)) ==> (
                    #[trigger] frames@[k2].frequencies@[i2]).intensity <= best.intensity,
                forall|k2: int, i2: int|
                    ((0 <= k2 < k && 0 <= i2 < nb) || (k2 == k && 0 <= i2 < i)) && (
                    #[trigger] frames@[k2].frequencies@[i2]).intensity == best.intensity
                        ==> best.hertz <= frames@[k2].frequencies@[i2].hertz,
            decreases nb - i,
        {
            let c: FrequencyInfo = frames[k].frequencies[i];
            if c.intensity > best.intensity || (c.intensity == best.intensity && c.hertz
                < best.hertz) {
                best = c;
                proof {
                    wk = k as int;
                    wi = i as int;
                }
            }
            i = i + 1;
        }
        k = k + 1;
    }
    assert forall|k2: int, i2: int| is_cell(frames@, k2, i2) implies (
    #[trigger] frames@[k2].frequencies@[i2]).intensity <= best.intensity by {
        assert(frames@[k2].frequencies@.len() == nb);
    }
    assert forall|k2: int, i2: int|
        is_cell(frames@, k2, i2) && (#[trigger] frames@[k2].frequencies@[i2]).intensity
            == best.intensity implies best.hertz <= frames@[k2].frequencies@[i2].hertz by {
        assert(frames@[k2].frequencies@.len() == nb);
    }
    assert(is_cell(frames@, wk, wi) && frames@[wk].frequencies@[wi] == best);
    Ok(best)
}


/// The frames of one run all have `window_size / 2` bins, so they can be
/// combined, and their average has `window_size / 2` bins as well.
pub proof fn lemma_average_of_run_keeps_bin_count(
    frames: Seq<WindowFrequencyInfo>,
    spectra: Seq<Seq<Complex>>,
    sample_rate: nat,
    window_size: nat,
    normalize: bool,
    avg: Seq<FrequencyInfo>,
)
    requires
        frames.len() == spectra.len(),
        forall|k: int|
            0 <= k < frames.len() ==> labels_spectrum(
                (#[trigger] frames[k]).frequencies@,
                spectra[k],
                sample_rate,
                window_size,
                normalize,
            ),
        forall|k: int| 0 <= k < frames.len() ==> avg.len() == (#[trigger] frames[k]).frequencies@.len(),
        frames.len() > 0,
    ensures
        bin_counts_agree(frames),
        avg.len() == window_size / 2,
{
    assert(labels_spectrum(frames[0].frequencies@, spectra[0], sample_rate, window_size, normalize));
}

} // verus!
