//! A linear prediction over a buffer, in the form that iterator chains
//! compile to.
use vstd::prelude::*;

verus! {

/// The sum of `coeffs[j] * buf[i - 12 + j]` over the first `k` coefficients.
pub open spec fn prediction_sum(buf: Seq<i32>, coeffs: Seq<i64>, i: int, k: int) -> int
    decreases k,
{
    if k <= 0 {
        0
    } else {
        prediction_sum(buf, coeffs, i, k - 1) + coeffs[k - 1] * buf[i - 12 + k - 1]
    }
}

/// The new value at index `i`: the prediction shifted right by `shift`, cut
/// to 32 bits, plus the value that stood there.
pub open spec fn step_value(buf: Seq<i32>, coeffs: Seq<i64>, shift: i16, i: int) -> i32 {
    ((((prediction_sum(buf, coeffs, i, 12) as i64) >> shift) as i32) + buf[i]) as i32
}

/// Computing the value at index `i` overflows nowhere: no product, no
/// partial sum and not the final addition.
pub open spec fn step_fits(buf: Seq<i32>, coeffs: Seq<i64>, shift: i16, i: int) -> bool {
    &&& forall|k: int|
        0 <= k < 12 ==> i64::MIN <= #[trigger] (coeffs[k] * buf[i - 12 + k]) <= i64::MAX
    &&& forall|k: int|
        1 <= k <= 12 ==> i64::MIN <= #[trigger] prediction_sum(buf, coeffs, i, k) <= i64::MAX
    &&& i32::MIN <= (((prediction_sum(buf, coeffs, i, 12) as i64) >> shift) as i32) + buf[i]
        <= i32::MAX
}

/// The buffer after the values at indices 12 up to `i` (excluded) have been
/// computed, each from the twelve before it.
pub open spec fn run_to(buf: Seq<i32>, coeffs: Seq<i64>, shift: i16, i: int) -> Seq<i32>
    decreases i,
{
    if i <= 12 {
        buf
    } else {
        let prev = run_to(buf, coeffs, shift, i - 1);
        prev.update(i - 1, step_value(prev, coeffs, shift, i - 1))
    }
}

/// No step of the run over `buf` overflows.
pub open spec fn run_fits(buf: Seq<i32>, coeffs: Seq<i64>, shift: i16) -> bool {
    forall|i: int|
        12 <= i < buf.len() ==> #[trigger] step_fits(run_to(buf, coeffs, shift, i), coeffs, shift, i)
}

proof fn lemma_run_len(buf: Seq<i32>, coeffs: Seq<i64>, shift: i16, i: int)
    requires
        i <= buf.len(),
    ensures
        run_to(buf, coeffs, shift, i).len() == buf.len(),
    decreases i,
{
    if i > 12 {
        lemma_run_len(buf, coeffs, shift, i - 1);
    }
}

/// Replaces each value from index 12 on by the value that stood there plus
/// the prediction from the twelve values before it (as already replaced):
/// the sum of their products with `coefficients`, shifted right by
/// `qlp_shift`.
pub fn ch13_04_performance(buffer: &mut [i32], coefficients: [i64; 12], qlp_shift: i16)
    requires
        0 <= qlp_shift < 64,
        run_fits(old(buffer)@, coefficients@, qlp_shift),
    ensures
        final(buffer)@ == run_to(old(buffer)@, coefficients@, qlp_shift, old(buffer)@.len() as int),
{
    let ghost start = buffer@;
    let n = buffer.len();
    if n <= 12 {
        return;
    }
    let mut i: usize = 12;
    while i < n
        invariant
            n == buffer@.len() == start.len(),
            12 <= i <= n,
            0 <= qlp_shift < 64,
            run_fits(start, coefficients@, qlp_shift),
            buffer@ == run_to(start, coefficients@, qlp_shift, i as int),
        decreases n - i,
    {
        proof {
            lemma_run_len(start, coefficients@, qlp_shift, i as int);
            assert(step_fits(run_to(start, coefficients@, qlp_shift, i as int), coefficients@, qlp_shift, i as int));
        }
        let mut sum: i64 = 0;
        let mut k: usize = 0;
        while k < 12
            invariant
                12 <= i < n == buffer@.len(),
                k <= 12,
                step_fits(buffer@, coefficients@, qlp_shift, i as int),
                sum == prediction_sum(buffer@, coefficients@, i as int, k as int),
            decreases 12 - k,
        {
            proof {
                assert(i64::MIN <= coefficients@[k as int] * buffer@[i - 12 + k] <= i64::MAX);
                assert(i64::MIN <= prediction_sum(buffer@, coefficients@, i as int, k + 1) <= i64::MAX);
            }
            let product = coefficients[k] * (buffer[i - 12 + k] as i64);
            sum = sum + product;
            k = k + 1;
        }
        let prediction = sum >> qlp_shift;
        let delta = buffer[i];
        buffer[i] = prediction as i32 + delta;
        i = i + 1;
    }
}

} // verus!
