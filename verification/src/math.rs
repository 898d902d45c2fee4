//! Sums over sequences of counters, and exact integer percentages.
//!
//! `sum64` is the mathematical total of a sequence of `u64` counters; the
//! lemmas here relate it to prefixes, suffixes and point updates, which is
//! what the histogram and aggregation loops maintain as invariants.

use vstd::prelude::*;

verus! {

/// Total of a sequence of counters, as a mathematical integer.
pub open spec fn sum64(s: Seq<u64>) -> int
    decreases s.len(),
{
    if s.len() == 0 {
        0
    } else {
        sum64(s.drop_last()) + s.last()
    }
}

/// Total of the suffix `s[i..]`, as the display loops accumulate it,
/// scanning from the right.
pub open spec fn suffix_sum(s: Seq<u64>, i: int) -> int
    decreases s.len() - i,
{
    if i < 0 || i >= s.len() {
        0
    } else {
        s[i] + suffix_sum(s, i + 1)
    }
}

/// A sum of unsigned counters is never negative.
pub proof fn lemma_sum64_nonneg(s: Seq<u64>)
    ensures
        sum64(s) >= 0,
    decreases s.len(),
{
    if s.len() > 0 {
        lemma_sum64_nonneg(s.drop_last());
    }
}

/// Extending a prefix by one element adds exactly that element to its sum.
pub proof fn lemma_sum64_take_succ(s: Seq<u64>, i: int)
    requires
        0 <= i < s.len(),
    ensures
        sum64(s.take(i + 1)) == sum64(s.take(i)) + s[i],
{
    assert(s.take(i + 1).drop_last() =~= s.take(i));
    assert(s.take(i + 1).last() == s[i]);
}

/// A prefix sum never exceeds the whole sum.
pub proof fn lemma_sum64_take_le(s: Seq<u64>, i: int)
    requires
        0 <= i <= s.len(),
    ensures
        sum64(s.take(i)) <= sum64(s),
    decreases s.len() - i,
{
    if i == s.len() {
        assert(s.take(i) =~= s);
    } else {
        lemma_sum64_take_succ(s, i);
        lemma_sum64_take_le(s, i + 1);
    }
}

/// Replacing one element changes the sum by the difference.
pub proof fn lemma_sum64_update(s: Seq<u64>, j: int, v: u64)
    requires
        0 <= j < s.len(),
    ensures
        sum64(s.update(j, v)) == sum64(s) - s[j] + v,
    decreases s.len(),
{
    if j == s.len() - 1 {
        assert(s.update(j, v).drop_last() =~= s.drop_last());
    } else {
        assert(s.update(j, v).drop_last() =~= s.drop_last().update(j, v));
        lemma_sum64_update(s.drop_last(), j, v);
    }
}

/// No single counter exceeds the total.
pub proof fn lemma_sum64_element_le(s: Seq<u64>, j: int)
    requires
        0 <= j < s.len(),
    ensures
        s[j] <= sum64(s),
{
    lemma_sum64_take_succ(s, j);
    lemma_sum64_take_le(s, j + 1);
    lemma_sum64_nonneg(s.take(j));
}

/// When every counter is at least one, the total is at least the count.
pub proof fn lemma_sum64_all_pos(s: Seq<u64>)
    requires
        forall|i: int| 0 <= i < s.len() ==> s[i] >= 1,
    ensures
        sum64(s) >= s.len(),
    decreases s.len(),
{
    if s.len() > 0 {
        lemma_sum64_all_pos(s.drop_last());
    }
}

/// A suffix sum is the whole sum less the matching prefix sum.
pub proof fn lemma_suffix_sum(s: Seq<u64>, i: int)
    requires
        0 <= i <= s.len(),
    ensures
        suffix_sum(s, i) == sum64(s) - sum64(s.take(i)),
    decreases s.len() - i,
{
    if i == s.len() {
        assert(s.take(i) =~= s);
    } else {
        lemma_suffix_sum(s, i + 1);
        lemma_sum64_take_succ(s, i);
    }
}

/// Share of `part` in `whole`, in hundredths of a percent, rounded down;
/// zero when `whole` is zero.
pub open spec fn pct_centi(part: int, whole: int) -> int {
    if whole == 0 {
        0
    } else {
        part * 10000 / whole
    }
}

/// Share of `part` in `whole`, in tenths of a percent, rounded down;
/// zero when `whole` is zero.
pub open spec fn frac_tenths(part: int, whole: int) -> int {
    if whole == 0 {
        0
    } else {
        part * 1000 / whole
    }
}

/// Share of `part` in `whole`, in whole percent, rounded down; zero when
/// `whole` is zero.
pub open spec fn pct_whole(part: int, whole: int) -> int {
    if whole == 0 {
        0
    } else {
        part * 100 / whole
    }
}

/// A floored scaled ratio with `part <= whole` never exceeds the scale.
pub proof fn lemma_scaled_ratio_le(part: int, whole: int, scale: int)
    requires
        0 <= part <= whole,
        scale >= 0,
    ensures
        whole > 0 ==> part * scale / whole <= scale,
{
    if whole > 0 {
        assert(part * scale <= whole * scale) by (nonlinear_arith)
            requires 0 <= part <= whole && scale >= 0;
        assert(part * scale / whole <= whole * scale / whole) by (nonlinear_arith)
            requires whole > 0 && part * scale <= whole * scale;
        assert(whole * scale / whole == scale) by (nonlinear_arith)
            requires whole > 0;
    }
}

/// Bounded factors give a bounded product.
pub proof fn lemma_mul_le(a: int, b: int, c: int, d: int)
    requires
        0 <= a <= c,
        0 <= b <= d,
    ensures
        a * b <= c * d,
{
    assert(a * b <= c * d) by (nonlinear_arith)
        requires 0 <= a <= c && 0 <= b <= d;
}

/// Percentage of `part` in `whole` in hundredths of a percent, the
/// precision used for the per-file GC and quality-threshold fields.
pub fn percent_centi(part: u64, whole: u64) -> (r: u64)
    requires
        part <= whole,
    ensures
        r == pct_centi(part as int, whole as int),
        r <= 10000,
{
    proof {
        lemma_scaled_ratio_le(part as int, whole as int, 10000);
    }
    if whole == 0 {
        0
    } else {
        ((part as u128 * 10000) / (whole as u128)) as u64
    }
}

} // verus!
