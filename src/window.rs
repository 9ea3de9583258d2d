use vstd::prelude::*;

verus! {

/// The sum of the samples.
pub open spec fn sample_sum(s: Seq<i16>) -> int
    decreases s.len(),
{
    if s.len() == 0 {
        0
    } else {
        sample_sum(s.drop_last()) + s.last()
    }
}

/// Sample `i` of `frame` with the frame's mean taken away, scaled by the frame
/// length so that it stays an exact integer: `N * x[i] - sum(x)`.
pub open spec fn centred_sample(frame: Seq<i16>, i: int) -> int {
    frame.len() * frame[i] - sample_sum(frame)
}

proof fn lemma_sum_of_constant(s: Seq<i16>, c: i16)
    requires
        forall|i: int| 0 <= i < s.len() ==> s[i] == c,
    ensures
        sample_sum(s) == s.len() * c,
    decreases s.len(),
{
    if s.len() > 0 {
        lemma_sum_of_constant(s.drop_last(), c);
        assert(s.len() * c == (s.len() - 1) * c + c) by (nonlinear_arith);
    }
}

/// A frame whose samples are all equal has no energy left once its mean is
/// removed: every centred sample is zero.
pub proof fn lemma_constant_frame_centres_to_zero(frame: Seq<i16>, c: i16)
    requires
        forall|i: int| 0 <= i < frame.len() ==> frame[i] == c,
    ensures
        forall|i: int| 0 <= i < frame.len() ==> #[trigger] centred_sample(frame, i) == 0,
{
    lemma_sum_of_constant(frame, c);
}

/// Removes the DC bias of `frame`: element `i` of the result is
/// `N * frame[i] - sum(frame)` for a frame of `N` samples, that is the
/// mean-free sample scaled by `N`.
pub fn remove_dc(frame: &Vec<i16>) -> (r: Vec<i128>)
    ensures
        r@.len() == frame@.len(),
        forall|i: int| 0 <= i < r@.len() ==> #[trigger] r@[i] == centred_sample(frame@, i),
{
    let n: usize = frame.len();
    let mut sum: i128 = 0;
    let mut i: usize = 0;
    while i < n
        invariant
            n == frame@.len(),
            i <= n,
            sum == sample_sum(frame@.subrange(0, i as int)),
            -32768 * i <= sum <= 32767 * i,
        decreases n - i,
    {
        assert(frame@.subrange(0, i + 1).drop_last() =~= frame@.subrange(0, i as int));
        sum = sum + frame[i] as i128;
        i = i + 1;
    }
    assert(frame@.subrange(0, n as int) =~= frame@);
    let mut r: Vec<i128> = Vec::with_capacity(n);
    let mut j: usize = 0;
    while j < n
        invariant
            n == frame@.len(),
            j <= n,
            sum == sample_sum(frame@),
            -32768 * n <= sum <= 32767 * n,
            r@.len() == j,
            forall|k: int| 0 <= k < j ==> #[trigger] r@[k] == centred_sample(frame@, k),
        decreases n - j,
    {
        let x: i128 = frame[j] as i128;
        proof {
            assert(-32768 * n <= n * x <= 32767 * n) by (nonlinear_arith)
                requires
                    -32768 <= x <= 32767,
                    0 <= n,
            ;
        }
        let scaled: i128 = n as i128 * x;
        r.push(scaled - sum);
        j = j + 1;
    }
    r
}

} // verus!
