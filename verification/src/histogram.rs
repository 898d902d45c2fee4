//! Fixed 30-bin distributions over read lengths and quality codes.
//!
//! A value lands in bin `value / bin_width`; everything at or beyond the
//! last bin folds into it, so bin 29 is open-ended. The bin width is
//! caller-supplied for lengths and fixed at 2 for qualities. Three display
//! modes share the bins: counts per bin, bases per bin, and cumulative
//! yield, the suffix sum of the base-weighted bins, read as "bases
//! retained if everything below this bin were discarded".
//!
//! Display bins carry their bounds, the raw value, a bar height in whole
//! percent of the tallest bin (of the total yield, in cumulative mode) and
//! a share of the total in tenths of a percent, all rounded down.

use crate::math::{frac_tenths, lemma_mul_le, lemma_scaled_ratio_le, lemma_suffix_sum,
    lemma_sum64_element_le, lemma_sum64_nonneg, lemma_sum64_take_le, lemma_sum64_take_succ,
    lemma_sum64_update, pct_whole, suffix_sum, sum64};
use vstd::prelude::*;

verus! {

/// Bin of a length value for a bin width.
pub open spec fn length_bin(v: u64, width: u64) -> int
    recommends
        width > 0,
{
    if v as int / width as int >= 29 {
        29
    } else {
        v as int / width as int
    }
}

/// Bin of a per-record mean quality; one bin spans two quality values.
pub open spec fn quality_bin(q: u8) -> int {
    if q as int / 2 >= 29 {
        29
    } else {
        q as int / 2
    }
}

/// Bin of a raw per-base quality code: its Phred value (offset 33, clamped
/// below at zero), two values per bin.
pub open spec fn code_bin(c: int) -> int {
    let phred = if c < 33 {
        0
    } else {
        c - 33
    };
    if phred / 2 >= 29 {
        29
    } else {
        phred / 2
    }
}

/// Number of lengths of `s` that fall in bin `b`.
pub open spec fn count_in_lbin(s: Seq<u64>, width: u64, b: int) -> int
    decreases s.len(),
{
    if s.len() == 0 {
        0
    } else {
        count_in_lbin(s.drop_last(), width, b) + if length_bin(s.last(), width) == b {
            1int
        } else {
            0
        }
    }
}

/// Total bases contributed to bin `b` by the lengths of `s`.
pub open spec fn bases_in_lbin(s: Seq<u64>, width: u64, b: int) -> int
    decreases s.len(),
{
    if s.len() == 0 {
        0
    } else {
        bases_in_lbin(s.drop_last(), width, b) + if length_bin(s.last(), width) == b {
            s.last() as int
        } else {
            0
        }
    }
}

/// Number of mean qualities of `s` that fall in bin `b`.
pub open spec fn count_in_qbin(s: Seq<u8>, b: int) -> int
    decreases s.len(),
{
    if s.len() == 0 {
        0
    } else {
        count_in_qbin(s.drop_last(), b) + if quality_bin(s.last()) == b {
            1int
        } else {
            0
        }
    }
}

/// Bases contributed to bin `b` by the first `n` entries of a per-code
/// base-count histogram (index = raw quality code).
pub open spec fn qbases_upto(h: Seq<u64>, b: int, n: int) -> int
    decreases n,
{
    if n <= 0 {
        0
    } else {
        qbases_upto(h, b, n - 1) + if code_bin(n - 1) == b {
            h[n - 1] as int
        } else {
            0
        }
    }
}

/// Bases contributed to bin `b` by a whole per-code base-count histogram.
pub open spec fn qbases_in_bin(h: Seq<u64>, b: int) -> int {
    qbases_upto(h, b, 256)
}

/// Largest value of a sequence of counters; zero when empty.
pub open spec fn max64(s: Seq<u64>) -> int
    decreases s.len(),
{
    if s.len() == 0 {
        0
    } else if s.last() as int > max64(s.drop_last()) {
        s.last() as int
    } else {
        max64(s.drop_last())
    }
}

/// No counter exceeds the largest one.
pub proof fn lemma_max64_ge(s: Seq<u64>, j: int)
    requires
        0 <= j < s.len(),
    ensures
        s[j] <= max64(s),
    decreases s.len(),
{
    if j < s.len() - 1 {
        lemma_max64_ge(s.drop_last(), j);
    }
}

/// One display bin of a distribution: its bounds (the last bin is
/// open-ended), the raw count or base total, the bar height in whole
/// percent, and the share of the file total in tenths of a percent.
pub struct DistBin {
    pub lower: u64,
    pub upper: Option<u64>,
    pub raw: u64,
    pub height_percent: u64,
    pub fraction_tenths: u64,
}

/// Thirty zeroed bins.
fn zero_bins() -> (v: Vec<u64>)
    ensures
        v@.len() == 30,
        forall|b: int| 0 <= b < 30 ==> v@[b] == 0,
        sum64(v@) == 0,
{
    let mut v: Vec<u64> = Vec::new();
    let mut i: usize = 0;
    while i < 30
        invariant
            i <= 30,
            v@.len() == i,
            forall|b: int| 0 <= b < i ==> v@[b] == 0,
            sum64(v@) == 0,
        decreases 30 - i,
    {
        proof {
            assert(v@.push(0u64).drop_last() =~= v@);
        }
        v.push(0);
        i = i + 1;
    }
    v
}

/// Count-mode length distribution: how many reads fall in each length bin.
pub fn length_bins_count(lengths: &Vec<u64>, width: u64) -> (bins: Vec<u64>)
    requires
        width > 0,
    ensures
        bins@.len() == 30,
        forall|b: int| 0 <= b < 30 ==> bins@[b] == count_in_lbin(lengths@, width, b),
        sum64(bins@) == lengths@.len(),
{
    let mut bins = zero_bins();
    let mut i: usize = 0;
    while i < lengths.len()
        invariant
            i <= lengths@.len(),
            width > 0,
            bins@.len() == 30,
            forall|b: int| 0 <= b < 30 ==> bins@[b] == count_in_lbin(
                lengths@.take(i as int),
                width,
                b,
            ),
            sum64(bins@) == i,
        decreases lengths@.len() - i,
    {
        let lv = lengths[i];
        let q = lv / width;
        let bi: usize = if q >= 29 {
            29
        } else {
            q as usize
        };
        let ghost pre = bins@;
        proof {
            lemma_sum64_element_le(pre, bi as int);
        }
        let cur = bins[bi];
        bins[bi] = cur + 1;
        proof {
            lemma_sum64_update(pre, bi as int, (cur + 1) as u64);
            assert(lengths@.take(i + 1).drop_last() =~= lengths@.take(i as int));
            assert(lengths@.take(i + 1).last() == lengths@[i as int]);
            assert(length_bin(lengths@[i as int], width) == bi);
            assert forall|b: int| 0 <= b < 30 implies bins@[b] == count_in_lbin(
                lengths@.take(i + 1),
                width,
                b,
            ) by {
                if b != bi {
                    assert(bins@[b] == pre[b]);
                }
            }
        }
        i = i + 1;
    }
    proof {
        assert(lengths@.take(lengths@.len() as int) =~= lengths@);
    }
    bins
}

/// Base-weighted length distribution: total bases of the reads in each
/// length bin.
pub fn length_bins_bases(lengths: &Vec<u64>, width: u64) -> (bins: Vec<u64>)
    requires
        width > 0,
        sum64(lengths@) <= u64::MAX,
    ensures
        bins@.len() == 30,
        forall|b: int| 0 <= b < 30 ==> bins@[b] == bases_in_lbin(lengths@, width, b),
        sum64(bins@) == sum64(lengths@),
{
    let mut bins = zero_bins();
    let mut i: usize = 0;
    while i < lengths.len()
        invariant
            i <= lengths@.len(),
            width > 0,
            sum64(lengths@) <= u64::MAX,
            bins@.len() == 30,
            forall|b: int| 0 <= b < 30 ==> bins@[b] == bases_in_lbin(
                lengths@.take(i as int),
                width,
                b,
            ),
            sum64(bins@) == sum64(lengths@.take(i as int)),
        decreases lengths@.len() - i,
    {
        let lv = lengths[i];
        let q = lv / width;
        let bi: usize = if q >= 29 {
            29
        } else {
            q as usize
        };
        let ghost pre = bins@;
        proof {
            lemma_sum64_element_le(pre, bi as int);
            lemma_sum64_take_succ(lengths@, i as int);
            lemma_sum64_take_le(lengths@, i + 1);
            lemma_sum64_nonneg(pre);
        }
        let cur = bins[bi];
        bins[bi] = cur + lv;
        proof {
            lemma_sum64_update(pre, bi as int, (cur + lv) as u64);
            assert(lengths@.take(i + 1).drop_last() =~= lengths@.take(i as int));
            assert(lengths@.take(i + 1).last() == lengths@[i as int]);
            assert(length_bin(lengths@[i as int], width) == bi);
            assert forall|b: int| 0 <= b < 30 implies bins@[b] == bases_in_lbin(
                lengths@.take(i + 1),
                width,
                b,
            ) by {
                if b != bi {
                    assert(bins@[b] == pre[b]);
                }
            }
        }
        i = i + 1;
    }
    proof {
        assert(lengths@.take(lengths@.len() as int) =~= lengths@);
    }
    bins
}

/// Count-mode quality distribution: how many reads' mean qualities fall in
/// each quality bin.
pub fn quality_bins_count(quals: &Vec<u8>) -> (bins: Vec<u64>)
    ensures
        bins@.len() == 30,
        forall|b: int| 0 <= b < 30 ==> bins@[b] == count_in_qbin(quals@, b),
        sum64(bins@) == quals@.len(),
{
    let mut bins = zero_bins();
    let mut i: usize = 0;
    while i < quals.len()
        invariant
            i <= quals@.len(),
            bins@.len() == 30,
            forall|b: int| 0 <= b < 30 ==> bins@[b] == count_in_qbin(quals@.take(i as int), b),
            sum64(bins@) == i,
        decreases quals@.len() - i,
    {
        let qv = quals[i];
        let h = qv / 2;
        let bi: usize = if h >= 29 {
            29
        } else {
            h as usize
        };
        let ghost pre = bins@;
        proof {
            lemma_sum64_element_le(pre, bi as int);
        }
        let cur = bins[bi];
        bins[bi] = cur + 1;
        proof {
            lemma_sum64_update(pre, bi as int, (cur + 1) as u64);
            assert(quals@.take(i + 1).drop_last() =~= quals@.take(i as int));
            assert(quals@.take(i + 1).last() == quals@[i as int]);
            assert(quality_bin(quals@[i as int]) == bi);
            assert forall|b: int| 0 <= b < 30 implies bins@[b] == count_in_qbin(
                quals@.take(i + 1),
                b,
            ) by {
                if b != bi {
                    assert(bins@[b] == pre[b]);
                }
            }
        }
        i = i + 1;
    }
    proof {
        assert(quals@.take(quals@.len() as int) =~= quals@);
    }
    bins
}

/// Base-weighted quality distribution, from the per-code base-count
/// histogram (index = raw quality code), so that base-level granularity is
/// preserved.
pub fn quality_bins_bases(codes: &Vec<u64>) -> (bins: Vec<u64>)
    requires
        codes@.len() == 256,
        sum64(codes@) <= u64::MAX,
    ensures
        bins@.len() == 30,
        forall|b: int| 0 <= b < 30 ==> bins@[b] == qbases_in_bin(codes@, b),
        sum64(bins@) == sum64(codes@),
{
    let mut bins = zero_bins();
    let mut c: usize = 0;
    while c < 256
        invariant
            c <= 256,
            codes@.len() == 256,
            sum64(codes@) <= u64::MAX,
            bins@.len() == 30,
            forall|b: int| 0 <= b < 30 ==> bins@[b] == qbases_upto(codes@, b, c as int),
            sum64(bins@) == sum64(codes@.take(c as int)),
        decreases 256 - c,
    {
        let phred: usize = if c < 33 {
            0
        } else {
            c - 33
        };
        let h = phred / 2;
        let bi: usize = if h >= 29 {
            29
        } else {
            h
        };
        let ghost pre = bins@;
        proof {
            lemma_sum64_element_le(pre, bi as int);
            lemma_sum64_take_succ(codes@, c as int);
            lemma_sum64_take_le(codes@, c + 1);
            lemma_sum64_nonneg(pre);
        }
        let cv = codes[c];
        let cur = bins[bi];
        bins[bi] = cur + cv;
        proof {
            lemma_sum64_update(pre, bi as int, (cur + cv) as u64);
            assert(code_bin(c as int) == bi);
            assert forall|b: int| 0 <= b < 30 implies bins@[b] == qbases_upto(
                codes@,
                b,
                c + 1,
            ) by {
                if b != bi {
                    assert(bins@[b] == pre[b]);
                }
            }
        }
        c = c + 1;
    }
    proof {
        assert(codes@.take(256int) =~= codes@);
    }
    bins
}

/// Cumulative yield: the suffix sums of a base-weighted distribution.
/// Non-increasing, with the whole base total in the first bin.
pub fn cumulative_yield(bins: &Vec<u64>) -> (c: Vec<u64>)
    requires
        sum64(bins@) <= u64::MAX,
    ensures
        c@.len() == bins@.len(),
        forall|i: int| 0 <= i < c@.len() ==> c@[i] == suffix_sum(bins@, i),
        forall|i: int| 0 <= i < c@.len() - 1 ==> #[trigger] c@[i] >= c@[i + 1],
        bins@.len() > 0 ==> c@[0] == sum64(bins@),
{
    let n = bins.len();
    let mut c: Vec<u64> = Vec::new();
    let mut k: usize = 0;
    while k < n
        invariant
            c@.len() == k <= n,
        decreases n - k,
    {
        c.push(0);
        k = k + 1;
    }
    let mut acc: u64 = 0;
    let mut i: usize = n;
    while i > 0
        invariant
            i <= n,
            n == bins@.len(),
            c@.len() == n,
            sum64(bins@) <= u64::MAX,
            acc == suffix_sum(bins@, i as int),
            forall|j: int| i <= j < n ==> c@[j] == suffix_sum(bins@, j),
        decreases i,
    {
        i = i - 1;
        proof {
            lemma_suffix_sum(bins@, i as int);
            lemma_sum64_nonneg(bins@.take(i as int));
            lemma_sum64_take_le(bins@, i as int);
        }
        acc = acc + bins[i];
        c[i] = acc;
    }
    proof {
        if n > 0 {
            lemma_suffix_sum(bins@, 0);
            assert(bins@.take(0int) =~= Seq::<u64>::empty());
        }
        assert forall|j: int| 0 <= j < c@.len() - 1 implies #[trigger] c@[j] >= c@[j + 1] by {
            assert(c@[j] == suffix_sum(bins@, j));
            assert(c@[j + 1] == suffix_sum(bins@, j + 1));
        }
    }
    c
}

/// Largest bin value.
fn max_of(bins: &Vec<u64>) -> (m: u64)
    ensures
        m == max64(bins@),
{
    let mut m: u64 = 0;
    let mut i: usize = 0;
    while i < bins.len()
        invariant
            i <= bins@.len(),
            m == max64(bins@.take(i as int)),
        decreases bins@.len() - i,
    {
        proof {
            assert(bins@.take(i + 1).drop_last() =~= bins@.take(i as int));
            assert(bins@.take(i + 1).last() == bins@[i as int]);
        }
        let v = bins[i];
        if v > m {
            m = v;
        }
        i = i + 1;
    }
    proof {
        assert(bins@.take(bins@.len() as int) =~= bins@);
    }
    m
}

/// Total of all bin values.
fn sum_of(bins: &Vec<u64>) -> (t: u64)
    requires
        sum64(bins@) <= u64::MAX,
    ensures
        t == sum64(bins@),
{
    let mut t: u64 = 0;
    let mut i: usize = 0;
    while i < bins.len()
        invariant
            i <= bins@.len(),
            t == sum64(bins@.take(i as int)),
            sum64(bins@) <= u64::MAX,
        decreases bins@.len() - i,
    {
        proof {
            lemma_sum64_take_succ(bins@, i as int);
            lemma_sum64_take_le(bins@, i + 1);
        }
        t = t + bins[i];
        i = i + 1;
    }
    proof {
        assert(bins@.take(bins@.len() as int) =~= bins@);
    }
    t
}

/// Display form of a count-mode or base-weighted distribution: bar heights
/// are relative to the tallest bin, shares are of the bin total.
pub fn display_histogram(raw: &Vec<u64>, width: u64) -> (out: Vec<DistBin>)
    requires
        raw@.len() == 30,
        1 <= width <= 5000,
        sum64(raw@) <= u64::MAX,
    ensures
        out@.len() == 30,
        forall|i: int| 0 <= i < 30 ==> ({
            let d = #[trigger] out@[i];
            d.raw == raw@[i] && d.lower == i * width && d.upper == (if i < 29 {
                Some(((i + 1) * width) as u64)
            } else {
                None::<u64>
            }) && d.height_percent == pct_whole(raw@[i] as int, max64(raw@))
                && d.fraction_tenths == frac_tenths(raw@[i] as int, sum64(raw@))
        }),
{
    let m = max_of(raw);
    let t = sum_of(raw);
    let mut out: Vec<DistBin> = Vec::new();
    let mut i: usize = 0;
    while i < 30
        invariant
            i <= 30,
            raw@.len() == 30,
            1 <= width <= 5000,
            m == max64(raw@),
            t == sum64(raw@),
            out@.len() == i,
            forall|j: int| 0 <= j < i ==> ({
                let d = #[trigger] out@[j];
                d.raw == raw@[j] && d.lower == j * width && d.upper == (if j < 29 {
                    Some(((j + 1) * width) as u64)
                } else {
                    None::<u64>
                }) && d.height_percent == pct_whole(raw@[j] as int, max64(raw@))
                    && d.fraction_tenths == frac_tenths(raw@[j] as int, sum64(raw@))
            }),
        decreases 30 - i,
    {
        proof {
            lemma_mul_le(i as int, width as int, 30, 5000);
            lemma_mul_le(i + 1, width as int, 30, 5000);
            lemma_max64_ge(raw@, i as int);
            lemma_sum64_element_le(raw@, i as int);
            lemma_scaled_ratio_le(raw@[i as int] as int, m as int, 100);
            lemma_scaled_ratio_le(raw@[i as int] as int, t as int, 1000);
        }
        let rv = raw[i];
        let lower = (i as u64) * width;
        let upper = if i < 29 {
            Some((i as u64 + 1) * width)
        } else {
            None
        };
        let height = if m == 0 {
            0
        } else {
            ((rv as u128 * 100) / (m as u128)) as u64
        };
        let fraction = if t == 0 {
            0
        } else {
            ((rv as u128 * 1000) / (t as u128)) as u64
        };
        out.push(
            DistBin {
                lower,
                upper,
                raw: rv,
                height_percent: height,
                fraction_tenths: fraction,
            },
        );
        i = i + 1;
    }
    out
}

/// Display form of the cumulative-yield distribution of a base-weighted
/// histogram: bin `i` holds the bases retained at or above bin `i`, and
/// both the bar height and the share are relative to the total yield, so
/// the first bin reads one hundred percent.
pub fn display_cumulative(base_bins: &Vec<u64>, width: u64) -> (out: Vec<DistBin>)
    requires
        base_bins@.len() == 30,
        1 <= width <= 5000,
        sum64(base_bins@) <= u64::MAX,
    ensures
        out@.len() == 30,
        forall|i: int| 0 <= i < 30 ==> ({
            let d = #[trigger] out@[i];
            d.raw == suffix_sum(base_bins@, i) && d.lower == i * width && d.upper == (if i < 29 {
                Some(((i + 1) * width) as u64)
            } else {
                None::<u64>
            }) && d.height_percent == pct_whole(suffix_sum(base_bins@, i), sum64(base_bins@))
                && d.fraction_tenths == frac_tenths(suffix_sum(base_bins@, i), sum64(base_bins@))
        }),
        forall|i: int| 0 <= i < 29 ==> #[trigger] out@[i].raw >= out@[i + 1].raw,
{
    let c = cumulative_yield(base_bins);
    let t = sum_of(base_bins);
    let mut out: Vec<DistBin> = Vec::new();
    let mut i: usize = 0;
    while i < 30
        invariant
            i <= 30,
            base_bins@.len() == 30,
            c@.len() == 30,
            1 <= width <= 5000,
            t == sum64(base_bins@),
            t <= u64::MAX,
            forall|k: int| 0 <= k < 30 ==> c@[k] == suffix_sum(base_bins@, k),
            out@.len() == i,
            forall|j: int| 0 <= j < i ==> ({
                let d = #[trigger] out@[j];
                d.raw == suffix_sum(base_bins@, j) && d.lower == j * width && d.upper == (if j
                    < 29 {
                    Some(((j + 1) * width) as u64)
                } else {
                    None::<u64>
                }) && d.height_percent == pct_whole(suffix_sum(base_bins@, j), sum64(base_bins@))
                    && d.fraction_tenths == frac_tenths(
                    suffix_sum(base_bins@, j),
                    sum64(base_bins@),
                )
            }),
        decreases 30 - i,
    {
        proof {
            lemma_mul_le(i as int, width as int, 30, 5000);
            lemma_mul_le(i + 1, width as int, 30, 5000);
            lemma_suffix_sum(base_bins@, i as int);
            lemma_sum64_nonneg(base_bins@.take(i as int));
            lemma_sum64_take_le(base_bins@, i as int);
            lemma_scaled_ratio_le(c@[i as int] as int, t as int, 100);
            lemma_scaled_ratio_le(c@[i as int] as int, t as int, 1000);
        }
        let rv = c[i];
        let lower = (i as u64) * width;
        let upper = if i < 29 {
            Some((i as u64 + 1) * width)
        } else {
            None
        };
        let height = if t == 0 {
            0
        } else {
            ((rv as u128 * 100) / (t as u128)) as u64
        };
        let fraction = if t == 0 {
            0
        } else {
            ((rv as u128 * 1000) / (t as u128)) as u64
        };
        out.push(
            DistBin {
                lower,
                upper,
                raw: rv,
                height_percent: height,
                fraction_tenths: fraction,
            },
        );
        i = i + 1;
    }
    proof {
        assert forall|i: int| 0 <= i < 29 implies #[trigger] out@[i].raw >= out@[i + 1].raw by {
            assert(out@[i].raw == suffix_sum(base_bins@, i));
            assert(out@[i + 1].raw == suffix_sum(base_bins@, i + 1));
        }
    }
    out
}

} // verus!
