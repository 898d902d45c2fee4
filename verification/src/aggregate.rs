//! Per-file aggregation: folds the decoded record stream of one file into
//! one immutable metrics record.
//!
//! The aggregator consumes records one at a time, so the caller that owns
//! the stream can interleave cancellation checks between records; on
//! stream exhaustion, `finalize` computes the order statistics and the
//! percentage fields. A zero-length record is rejected and left out of
//! every running total, so a finalized file never carries a degenerate
//! sample.

use crate::math::{lemma_sum64_all_pos, lemma_sum64_element_le, lemma_sum64_update, pct_centi,
    percent_centi, sum64};
use crate::order_stats::{get_nx, median, median_ok, nx_ok};
use crate::qscore::{mean_q_of, qscore_mean};
use crate::reducers::{code_count, gc_count, ge_count, get_gc_bases, get_qual_bases,
    lemma_gc_count_le_len, lemma_ge_count_le_len};
use crate::StatsError;
use vstd::pervasive::unreached;
use vstd::prelude::*;

verus! {

/// Encoded cutoff for "Phred at least 20": 20 plus the offset 33.
pub const Q20_CUTOFF: u8 = 53;

/// Encoded cutoff for "Phred at least 30": 30 plus the offset 33.
pub const Q30_CUTOFF: u8 = 63;

/// Finalized metrics of one file, immutable once built.
///
/// `length_samples` and `quality_samples` keep one entry per record in
/// record order, for the distribution builders; `quality_histogram` maps
/// each raw quality code (its index) to the number of bases observed with
/// that code. `nx` is the N50 read length and `median_quality` the median
/// of the per-record mean qualities; both are zero placeholders for a file
/// with no records. Percentages are in hundredths of a percent, zero when
/// the file has no bases.
pub struct FileMetrics {
    pub name: String,
    pub basename: String,
    pub reads: u64,
    pub bases: u64,
    pub gc_bases: u64,
    pub q20_bases: u64,
    pub q30_bases: u64,
    pub gc_percent_centi: u64,
    pub q20_percent_centi: u64,
    pub q30_percent_centi: u64,
    pub nx: u64,
    pub median_quality: u8,
    pub length_samples: Vec<u64>,
    pub quality_samples: Vec<u8>,
    pub quality_histogram: Vec<u64>,
}

impl FileMetrics {
    /// Internal consistency of a finalized file: the counts agree with the
    /// sample lists and the histogram, the percentages are the exact
    /// floored ratios, and the order statistics are those of the samples
    /// (zero placeholders for an empty file).
    pub open spec fn wf(self) -> bool {
        &&& self.reads == self.length_samples@.len()
        &&& self.reads == self.quality_samples@.len()
        &&& self.bases == sum64(self.length_samples@)
        &&& self.quality_histogram@.len() == 256
        &&& self.bases == sum64(self.quality_histogram@)
        &&& self.gc_bases <= self.bases
        &&& self.q20_bases <= self.bases
        &&& self.q30_bases <= self.bases
        &&& forall|i: int| 0 <= i < self.length_samples@.len() ==> self.length_samples@[i] >= 1
        &&& self.gc_percent_centi == pct_centi(self.gc_bases as int, self.bases as int)
        &&& self.q20_percent_centi == pct_centi(self.q20_bases as int, self.bases as int)
        &&& self.q30_percent_centi == pct_centi(self.q30_bases as int, self.bases as int)
        &&& self.reads > 0 ==> nx_ok(self.nx, self.length_samples@, 1, 2)
        &&& self.reads == 0 ==> self.nx == 0
        &&& self.reads > 0 ==> median_ok(self.median_quality, self.quality_samples@)
        &&& self.reads == 0 ==> self.median_quality == 0
    }
}

/// Running state of one file's aggregation.
pub struct FileAggregator {
    pub name: String,
    pub basename: String,
    pub reads: u64,
    pub bases: u64,
    pub gc_bases: u64,
    pub q20_bases: u64,
    pub q30_bases: u64,
    pub length_samples: Vec<u64>,
    pub quality_samples: Vec<u8>,
    pub quality_histogram: Vec<u64>,
}

impl FileAggregator {
    /// Internal consistency of the running totals: counts agree with the
    /// sample lists and the histogram, and no accepted record was empty.
    pub open spec fn wf(self) -> bool {
        &&& self.reads == self.length_samples@.len()
        &&& self.reads == self.quality_samples@.len()
        &&& self.bases == sum64(self.length_samples@)
        &&& self.quality_histogram@.len() == 256
        &&& self.bases == sum64(self.quality_histogram@)
        &&& self.gc_bases <= self.bases
        &&& self.q20_bases <= self.bases
        &&& self.q30_bases <= self.bases
        &&& forall|i: int| 0 <= i < self.length_samples@.len() ==> self.length_samples@[i] >= 1
    }

    /// A fresh aggregator for one file, with every total at zero.
    pub fn new(name: String, basename: String) -> (agg: Self)
        ensures
            agg.wf(),
            agg.name == name,
            agg.basename == basename,
            agg.reads == 0,
            agg.bases == 0,
            agg.gc_bases == 0,
            agg.q20_bases == 0,
            agg.q30_bases == 0,
            agg.length_samples@.len() == 0,
            agg.quality_samples@.len() == 0,
            agg.quality_histogram@.len() == 256,
            forall|c: int| 0 <= c < 256 ==> agg.quality_histogram@[c] == 0,
    {
        let mut hist: Vec<u64> = Vec::new();
        let mut i: usize = 0;
        while i < 256
            invariant
                i <= 256,
                hist@.len() == i,
                forall|c: int| 0 <= c < i ==> hist@[c] == 0,
                sum64(hist@) == 0,
            decreases 256 - i,
        {
            proof {
                assert(hist@.push(0u64).drop_last() =~= hist@);
            }
            hist.push(0);
            i = i + 1;
        }
        FileAggregator {
            name,
            basename,
            reads: 0,
            bases: 0,
            gc_bases: 0,
            q20_bases: 0,
            q30_bases: 0,
            length_samples: Vec::new(),
            quality_samples: Vec::new(),
            quality_histogram: hist,
        }
    }

    /// Folds one decoded record into the running totals: counts its GC and
    /// threshold bases, appends its length and probability-domain mean
    /// quality to the sample lists, and counts each raw quality code into
    /// the per-code histogram.
    ///
    /// The external decoder guarantees that sequence and quality have the
    /// same length. A zero-length record has no mean quality; it is
    /// rejected with `DegenerateRecord` and changes nothing.
    pub fn add_record(&mut self, seq: &[u8], qual: &[u8]) -> (r: Result<(), StatsError>)
        requires
            old(self).wf(),
            seq@.len() == qual@.len(),
            old(self).bases + seq@.len() <= u64::MAX,
            old(self).reads < u64::MAX,
        ensures
            final(self).wf(),
            seq@.len() == 0 ==> (r matches Err(e) && e == StatsError::DegenerateRecord
                && *final(self) == *old(self)),
            seq@.len() > 0 ==> r is Ok && ({
                let pre = *old(self);
                let post = *final(self);
                post.name == pre.name && post.basename == pre.basename && post.reads == pre.reads
                    + 1 && post.bases == pre.bases + seq@.len() && post.gc_bases == pre.gc_bases
                    + gc_count(seq@) && post.q20_bases == pre.q20_bases + ge_count(
                    qual@,
                    Q20_CUTOFF,
                ) && post.q30_bases == pre.q30_bases + ge_count(qual@, Q30_CUTOFF)
                    && post.length_samples@ == pre.length_samples@.push(seq@.len() as u64)
                    && post.quality_samples@ == pre.quality_samples@.push(mean_q_of(qual@) as u8)
                    && post.quality_histogram@.len() == 256 && forall|c: int|
                    0 <= c < 256 ==> post.quality_histogram@[c] == pre.quality_histogram@[c]
                        + code_count(qual@, c as u8)
            }),
    {
        if seq.len() == 0 {
            return Err(StatsError::DegenerateRecord);
        }
        proof {
            lemma_gc_count_le_len(seq@);
            lemma_ge_count_le_len(qual@, Q20_CUTOFF);
            lemma_ge_count_le_len(qual@, Q30_CUTOFF);
        }
        let mq = match qscore_mean(qual) {
            Ok(v) => v,
            Err(_) => unreached(),
        };
        let gc = get_gc_bases(seq);
        let q20 = get_qual_bases(qual, Q20_CUTOFF);
        let q30 = get_qual_bases(qual, Q30_CUTOFF);
        let rec_len = seq.len() as u64;
        self.reads = self.reads + 1;
        self.bases = self.bases + rec_len;
        self.gc_bases = self.gc_bases + gc;
        self.q20_bases = self.q20_bases + q20;
        self.q30_bases = self.q30_bases + q30;
        proof {
            assert(self.length_samples@.push(rec_len).drop_last() =~= self.length_samples@);
        }
        self.length_samples.push(rec_len);
        self.quality_samples.push(mq);
        let ghost hist0 = self.quality_histogram@;
        let ghost mid = *self;
        let mut k: usize = 0;
        while k < qual.len()
            invariant
                k <= qual@.len(),
                self.quality_histogram@.len() == 256,
                hist0.len() == 256,
                sum64(hist0) + qual@.len() <= u64::MAX,
                sum64(self.quality_histogram@) == sum64(hist0) + k,
                forall|c: int| 0 <= c < 256 ==> self.quality_histogram@[c] == hist0[c]
                    + code_count(qual@.take(k as int), c as u8),
                self.name == mid.name,
                self.basename == mid.basename,
                self.reads == mid.reads,
                self.bases == mid.bases,
                self.gc_bases == mid.gc_bases,
                self.q20_bases == mid.q20_bases,
                self.q30_bases == mid.q30_bases,
                self.length_samples@ == mid.length_samples@,
                self.quality_samples@ == mid.quality_samples@,
            decreases qual@.len() - k,
        {
            let code = qual[k] as usize;
            let ghost pre = self.quality_histogram@;
            proof {
                lemma_sum64_element_le(pre, code as int);
            }
            let cur = self.quality_histogram[code];
            self.quality_histogram[code] = cur + 1;
            proof {
                lemma_sum64_update(pre, code as int, (cur + 1) as u64);
                assert(qual@.take(k + 1).drop_last() =~= qual@.take(k as int));
                assert(qual@.take(k + 1).last() == qual@[k as int]);
                assert forall|c: int| 0 <= c < 256 implies self.quality_histogram@[c] == hist0[c]
                    + code_count(qual@.take(k + 1), c as u8) by {
                    if c != code {
                        assert(self.quality_histogram@[c] == pre[c]);
                        assert(qual@[k as int] != c as u8);
                    }
                }
            }
            k = k + 1;
        }
        proof {
            assert(qual@.take(qual@.len() as int) =~= qual@);
        }
        Ok(())
    }

    /// Finalizes the file: computes the N50 over a transient copy of the
    /// length samples (the display-ordered originals are kept), the median
    /// of the mean qualities, and the floored percentage fields, which are
    /// zero for a file with no bases. A file with no records gets zero
    /// placeholders for both order statistics.
    pub fn finalize(self) -> (fm: FileMetrics)
        requires
            self.wf(),
        ensures
            fm.wf(),
            fm.name == self.name,
            fm.basename == self.basename,
            fm.reads == self.reads,
            fm.bases == self.bases,
            fm.gc_bases == self.gc_bases,
            fm.q20_bases == self.q20_bases,
            fm.q30_bases == self.q30_bases,
            fm.length_samples@ == self.length_samples@,
            fm.quality_samples@ == self.quality_samples@,
            fm.quality_histogram@ == self.quality_histogram@,
            fm.gc_percent_centi == pct_centi(self.gc_bases as int, self.bases as int),
            fm.q20_percent_centi == pct_centi(self.q20_bases as int, self.bases as int),
            fm.q30_percent_centi == pct_centi(self.q30_bases as int, self.bases as int),
            self.reads > 0 ==> nx_ok(fm.nx, self.length_samples@, 1, 2),
            self.reads == 0 ==> fm.nx == 0,
            self.reads > 0 ==> median_ok(fm.median_quality, self.quality_samples@),
            self.reads == 0 ==> fm.median_quality == 0,
    {
        proof {
            lemma_sum64_all_pos(self.length_samples@);
        }
        let mut lens = copy_u64s(&self.length_samples);
        let nx = match get_nx(&mut lens, 1, 2) {
            Ok(v) => {
                proof {
                    let i = choose|i: int|
                        0 <= i < lens@.len() && lens@[i] == v && sum64(lens@.take(i + 1)) * 2
                            > sum64(lens@) * 1 && sum64(lens@.take(i)) * 2 <= sum64(lens@) * 1;
                    assert(lens@.to_multiset() == self.length_samples@.to_multiset() && crate::
                    order_stats::sorted64(lens@) && 0 <= i < lens@.len() && lens@[i] == v && sum64(
                        lens@.take(i + 1),
                    ) * 2 > sum64(lens@) * 1 && sum64(lens@.take(i)) * 2 <= sum64(lens@) * 1);
                }
                v
            },
            Err(_) => 0,
        };
        let mut quals = copy_u8s(&self.quality_samples);
        let mq = match median(&mut quals) {
            Ok(v) => v,
            Err(_) => 0,
        };
        let gc_pct = percent_centi(self.gc_bases, self.bases);
        let q20_pct = percent_centi(self.q20_bases, self.bases);
        let q30_pct = percent_centi(self.q30_bases, self.bases);
        FileMetrics {
            name: self.name,
            basename: self.basename,
            reads: self.reads,
            bases: self.bases,
            gc_bases: self.gc_bases,
            q20_bases: self.q20_bases,
            q30_bases: self.q30_bases,
            gc_percent_centi: gc_pct,
            q20_percent_centi: q20_pct,
            q30_percent_centi: q30_pct,
            nx,
            median_quality: mq,
            length_samples: self.length_samples,
            quality_samples: self.quality_samples,
            quality_histogram: self.quality_histogram,
        }
    }
}

/// Element-for-element copy of a length-sample list.
fn copy_u64s(v: &Vec<u64>) -> (r: Vec<u64>)
    ensures
        r@ == v@,
{
    let mut r: Vec<u64> = Vec::new();
    let mut i: usize = 0;
    while i < v.len()
        invariant
            i <= v@.len(),
            r@ == v@.take(i as int),
        decreases v@.len() - i,
    {
        proof {
            assert(v@.take(i as int).push(v@[i as int]) =~= v@.take(i + 1));
        }
        r.push(v[i]);
        i = i + 1;
    }
    proof {
        assert(v@.take(v@.len() as int) =~= v@);
    }
    r
}

/// Element-for-element copy of a quality-sample list.
fn copy_u8s(v: &Vec<u8>) -> (r: Vec<u8>)
    ensures
        r@ == v@,
{
    let mut r: Vec<u8> = Vec::new();
    let mut i: usize = 0;
    while i < v.len()
        invariant
            i <= v@.len(),
            r@ == v@.take(i as int),
        decreases v@.len() - i,
    {
        proof {
            assert(v@.take(i as int).push(v@[i as int]) =~= v@.take(i + 1));
        }
        r.push(v[i]);
        i = i + 1;
    }
    proof {
        assert(v@.take(v@.len() as int) =~= v@);
    }
    r
}

} // verus!
