//! Probability-domain mean quality of one record.
//!
//! A quality code is Phred-encoded with offset 33: `code = phred + 33`,
//! where `phred = -10 * log10(error probability)`. The mean quality of a
//! record is the average taken in probability space, not in Phred space:
//! each code becomes its error probability, the probabilities are averaged,
//! and the mean is converted back to a (truncated) Phred value. A direct
//! arithmetic mean of Phred values would report a higher number for the
//! same data and is deliberately not what this module computes.
//!
//! The computation is exact integer fixed point. `prob_scaled(phred)` is
//! `floor(10^9 * 10^(-phred/10))`, tabulated for the encoded range the
//! format uses (codes 33 to 74, Phred 0 to 41; codes outside it clamp to
//! the nearest tabulated value). The result is the largest `k` with
//! `sum_of_scaled_probs <= n * prob_scaled(k)`, which is the floor of the
//! back-converted mean over this table; comparing `sum <= n * table(k)`
//! avoids dividing the sum by `n` and so loses nothing to truncation.

use crate::StatsError;
use vstd::prelude::*;

verus! {

/// Phred value of an encoded quality code, clamped to the tabulated range
/// 0 to 41.
pub open spec fn phred_of(code: u8) -> int {
    if code < 33 {
        0
    } else if code - 33 > 41 {
        41
    } else {
        code - 33
    }
}

/// `floor(10^9 * 10^(-phred/10))`: the error probability of a Phred value,
/// scaled by one billion and rounded down. Arguments below the table clamp
/// to Phred 0, arguments above it to Phred 41.
pub open spec fn prob_scaled(phred: int) -> int {
    if phred <= 0 {
        1000000000
    } else if phred == 1 { 794328234 }
    else if phred == 2 { 630957344 }
    else if phred == 3 { 501187233 }
    else if phred == 4 { 398107170 }
    else if phred == 5 { 316227766 }
    else if phred == 6 { 251188643 }
    else if phred == 7 { 199526231 }
    else if phred == 8 { 158489319 }
    else if phred == 9 { 125892541 }
    else if phred == 10 { 100000000 }
    else if phred == 11 { 79432823 }
    else if phred == 12 { 63095734 }
    else if phred == 13 { 50118723 }
    else if phred == 14 { 39810717 }
    else if phred == 15 { 31622776 }
    else if phred == 16 { 25118864 }
    else if phred == 17 { 19952623 }
    else if phred == 18 { 15848931 }
    else if phred == 19 { 12589254 }
    else if phred == 20 { 10000000 }
    else if phred == 21 { 7943282 }
    else if phred == 22 { 6309573 }
    else if phred == 23 { 5011872 }
    else if phred == 24 { 3981071 }
    else if phred == 25 { 3162277 }
    else if phred == 26 { 2511886 }
    else if phred == 27 { 1995262 }
    else if phred == 28 { 1584893 }
    else if phred == 29 { 1258925 }
    else if phred == 30 { 1000000 }
    else if phred == 31 { 794328 }
    else if phred == 32 { 630957 }
    else if phred == 33 { 501187 }
    else if phred == 34 { 398107 }
    else if phred == 35 { 316227 }
    else if phred == 36 { 251188 }
    else if phred == 37 { 199526 }
    else if phred == 38 { 158489 }
    else if phred == 39 { 125892 }
    else if phred == 40 { 100000 }
    else { 79432 }
}

/// Sum of the scaled error probabilities of a record's quality codes.
pub open spec fn prob_sum(s: Seq<u8>) -> int
    decreases s.len(),
{
    if s.len() == 0 {
        0
    } else {
        prob_sum(s.drop_last()) + prob_scaled(phred_of(s.last()))
    }
}

/// Largest `j <= k` whose scaled probability is at least the mean scaled
/// probability of `s`, i.e. with `prob_sum(s) <= s.len() * prob_scaled(j)`.
pub open spec fn mean_q_rec(s: Seq<u8>, k: int) -> int
    decreases k,
{
    if k <= 0 {
        0
    } else if prob_sum(s) <= s.len() * prob_scaled(k) {
        k
    } else {
        mean_q_rec(s, k - 1)
    }
}

/// Mean quality of a record in the probability domain: the truncated Phred
/// value of the record's mean error probability, over the fixed-point
/// table. Meaningful only for non-empty records.
pub open spec fn mean_q_of(s: Seq<u8>) -> int {
    mean_q_rec(s, 41)
}

/// The scaled probability table stays within its end values.
pub proof fn lemma_prob_scaled_bounds(phred: int)
    ensures
        79432 <= prob_scaled(phred) <= 1000000000,
{
}

/// Tabulated scaled error probability of a Phred value; values above the
/// table clamp to its last entry, as in `prob_scaled`.
fn prob_of_phred(phred: u8) -> (r: u64)
    ensures
        r == prob_scaled(phred as int),
{
    match phred {
        0 => 1000000000,
        1 => 794328234,
        2 => 630957344,
        3 => 501187233,
        4 => 398107170,
        5 => 316227766,
        6 => 251188643,
        7 => 199526231,
        8 => 158489319,
        9 => 125892541,
        10 => 100000000,
        11 => 79432823,
        12 => 63095734,
        13 => 50118723,
        14 => 39810717,
        15 => 31622776,
        16 => 25118864,
        17 => 19952623,
        18 => 15848931,
        19 => 12589254,
        20 => 10000000,
        21 => 7943282,
        22 => 6309573,
        23 => 5011872,
        24 => 3981071,
        25 => 3162277,
        26 => 2511886,
        27 => 1995262,
        28 => 1584893,
        29 => 1258925,
        30 => 1000000,
        31 => 794328,
        32 => 630957,
        33 => 501187,
        34 => 398107,
        35 => 316227,
        36 => 251188,
        37 => 199526,
        38 => 158489,
        39 => 125892,
        40 => 100000,
        _ => 79432,
    }
}

/// Mean quality of one record's quality-code array, averaged in
/// probability space and truncated back to an integer Phred value.
///
/// A zero-length record has no mean error probability; it is rejected with
/// `DegenerateRecord` so that the caller can exclude it from aggregation
/// instead of propagating an undefined value.
pub fn qscore_mean(q: &[u8]) -> (r: Result<u8, StatsError>)
    ensures
        q@.len() == 0 <==> r is Err,
        r matches Err(e) ==> e == StatsError::DegenerateRecord,
        r matches Ok(v) ==> v == mean_q_of(q@),
{
    if q.len() == 0 {
        return Err(StatsError::DegenerateRecord);
    }
    let mut sum: u128 = 0;
    let mut i: usize = 0;
    while i < q.len()
        invariant
            i <= q@.len(),
            sum == prob_sum(q@.take(i as int)),
            sum <= i * 1000000000,
        decreases q@.len() - i,
    {
        proof {
            assert(q@.take(i + 1).drop_last() =~= q@.take(i as int));
            lemma_prob_scaled_bounds(phred_of(q@[i as int]));
        }
        let code = q[i];
        let phred: u8 = if code < 33 {
            0
        } else if code - 33 > 41 {
            41
        } else {
            code - 33
        };
        let p = prob_of_phred(phred);
        sum = sum + p as u128;
        i = i + 1;
    }
    proof {
        assert(q@.take(q@.len() as int) =~= q@);
    }
    let n = q.len();
    let mut k: u8 = 41;
    loop
        invariant
            k <= 41,
            mean_q_rec(q@, 41) == mean_q_rec(q@, k as int),
            sum == prob_sum(q@),
            sum <= q@.len() * 1000000000,
            n == q@.len(),
            n > 0,
        decreases k,
    {
        let t = prob_of_phred(k);
        proof {
            lemma_prob_scaled_bounds(k as int);
            assert((n as int) * (t as int) <= (n as int) * 1000000000) by (nonlinear_arith)
                requires n >= 1 && 0 <= t <= 1000000000;
        }
        if sum <= (n as u128) * (t as u128) {
            return Ok(k);
        }
        assert(k > 0);
        k = k - 1;
    }
}

} // verus!
