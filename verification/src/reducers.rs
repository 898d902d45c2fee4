//! Per-record reducers: bounded scans over one record's bytes.
//!
//! `get_gc_bases` counts the bases that are exactly `G`, `g`, `C` or `c`;
//! ambiguity codes stay in the denominator but are never counted.
//! `get_qual_bases` counts quality codes at or above a cutoff given in the
//! encoded (offset-33) domain, so a Phred threshold of 20 is the cutoff 53.

use vstd::prelude::*;

verus! {

/// Whether a base byte counts toward GC content: exactly `G`, `g`, `C` or
/// `c`, with no general case folding.
pub open spec fn is_gc(b: u8) -> bool {
    b == 71 || b == 103 || b == 67 || b == 99
}

/// Number of GC bases in a sequence.
pub open spec fn gc_count(s: Seq<u8>) -> int
    decreases s.len(),
{
    if s.len() == 0 {
        0
    } else {
        gc_count(s.drop_last()) + if is_gc(s.last()) { 1int } else { 0 }
    }
}

/// Number of quality codes at or above `cutoff`.
pub open spec fn ge_count(s: Seq<u8>, cutoff: u8) -> int
    decreases s.len(),
{
    if s.len() == 0 {
        0
    } else {
        ge_count(s.drop_last(), cutoff) + if s.last() >= cutoff { 1int } else { 0 }
    }
}

/// Number of bytes equal to `code`.
pub open spec fn code_count(s: Seq<u8>, code: u8) -> int
    decreases s.len(),
{
    if s.len() == 0 {
        0
    } else {
        code_count(s.drop_last(), code) + if s.last() == code { 1int } else { 0 }
    }
}

/// A GC count never exceeds the record length.
pub proof fn lemma_gc_count_le_len(s: Seq<u8>)
    ensures
        0 <= gc_count(s) <= s.len(),
    decreases s.len(),
{
    if s.len() > 0 {
        lemma_gc_count_le_len(s.drop_last());
    }
}

/// A threshold count never exceeds the record length.
pub proof fn lemma_ge_count_le_len(s: Seq<u8>, cutoff: u8)
    ensures
        0 <= ge_count(s, cutoff) <= s.len(),
    decreases s.len(),
{
    if s.len() > 0 {
        lemma_ge_count_le_len(s.drop_last(), cutoff);
    }
}

/// With the lowest encoded cutoff, 33, every code of a well-formed quality
/// array is counted, since offset-33 encoding yields no code below 33: the
/// threshold count equals the record length.
pub proof fn lemma_cutoff_33_counts_all(s: Seq<u8>)
    requires
        forall|i: int| 0 <= i < s.len() ==> s[i] >= 33,
    ensures
        ge_count(s, 33) == s.len(),
    decreases s.len(),
{
    if s.len() > 0 {
        lemma_cutoff_33_counts_all(s.drop_last());
    }
}

/// Count of bases matching `{G, g, C, c}` in one record's sequence.
pub fn get_gc_bases(seq: &[u8]) -> (n: u64)
    ensures
        n == gc_count(seq@),
{
    proof {
        lemma_gc_count_le_len(seq@);
    }
    let mut n: u64 = 0;
    let mut i: usize = 0;
    while i < seq.len()
        invariant
            i <= seq@.len(),
            n == gc_count(seq@.take(i as int)),
            0 <= gc_count(seq@) <= seq@.len(),
        decreases seq@.len() - i,
    {
        proof {
            assert(seq@.take(i + 1).drop_last() =~= seq@.take(i as int));
            lemma_gc_count_le_len(seq@.take(i + 1));
        }
        let b = seq[i];
        if b == 71 || b == 103 || b == 67 || b == 99 {
            n = n + 1;
        }
        i = i + 1;
    }
    proof {
        assert(seq@.take(seq@.len() as int) =~= seq@);
    }
    n
}

/// Count of quality codes at or above the encoded cutoff `qx`.
pub fn get_qual_bases(q: &[u8], qx: u8) -> (n: u64)
    ensures
        n == ge_count(q@, qx),
{
    let mut n: u64 = 0;
    let mut i: usize = 0;
    while i < q.len()
        invariant
            i <= q@.len(),
            n == ge_count(q@.take(i as int), qx),
        decreases q@.len() - i,
    {
        proof {
            assert(q@.take(i + 1).drop_last() =~= q@.take(i as int));
            lemma_ge_count_le_len(q@.take(i + 1), qx);
        }
        if q[i] >= qx {
            n = n + 1;
        }
        i = i + 1;
    }
    proof {
        assert(q@.take(q@.len() as int) =~= q@);
    }
    n
}

} // verus!
