//! Per-record reducers, mean quality, and order statistics on concrete
//! inputs.

use fastx_stats::math::percent_centi;
use fastx_stats::order_stats::{get_nx, median};
use fastx_stats::qscore::qscore_mean;
use fastx_stats::reducers::{get_gc_bases, get_qual_bases};
use fastx_stats::StatsError;

#[test]
fn median_of_two_truncates() {
    let mut v: Vec<u8> = vec![1, 2];
    assert_eq!(median(&mut v), Ok(1));
}

#[test]
fn median_of_three_is_middle() {
    let mut v: Vec<u8> = vec![1, 2, 3];
    assert_eq!(median(&mut v), Ok(2));
}

#[test]
fn median_of_four_truncates() {
    let mut v: Vec<u8> = vec![1, 2, 3, 4];
    assert_eq!(median(&mut v), Ok(2));
}

#[test]
fn median_sorts_its_input() {
    let mut v: Vec<u8> = vec![9, 1, 5];
    assert_eq!(median(&mut v), Ok(5));
    assert_eq!(v, vec![1, 5, 9]);
}

#[test]
fn median_of_empty_is_empty_input_error() {
    let mut v: Vec<u8> = Vec::new();
    assert_eq!(median(&mut v), Err(StatsError::EmptyInput));
}

#[test]
fn n50_of_three_lengths() {
    // total 600, threshold 300; cumulative sums 100, 300, 600: the first
    // strictly above 300 is 600, at the 300-length read.
    let mut v: Vec<u64> = vec![100, 200, 300];
    assert_eq!(get_nx(&mut v, 1, 2), Ok(300));
    assert_eq!(v, vec![100, 200, 300]);
}

#[test]
fn n50_sorts_unordered_input() {
    let mut v: Vec<u64> = vec![300, 100, 200];
    assert_eq!(get_nx(&mut v, 1, 2), Ok(300));
    assert_eq!(v, vec![100, 200, 300]);
}

#[test]
fn n50_tie_resolves_to_first_strict_excess() {
    // total 8, threshold 4; cumulative sums 2, 4, 8: the cumulative sum 4
    // does not strictly exceed 4, so the answer is the 4-length read.
    let mut v: Vec<u64> = vec![2, 4, 2];
    assert_eq!(get_nx(&mut v, 1, 2), Ok(4));
}

#[test]
fn n90_picks_a_later_read() {
    // total 600, threshold 540: first cumulative sum above it is 600.
    let mut v: Vec<u64> = vec![100, 200, 300];
    assert_eq!(get_nx(&mut v, 9, 10), Ok(300));
    // threshold 60: the first cumulative sum above it is 100.
    let mut w: Vec<u64> = vec![100, 200, 300];
    assert_eq!(get_nx(&mut w, 1, 10), Ok(100));
}

#[test]
fn nx_of_empty_is_empty_input_error() {
    let mut v: Vec<u64> = Vec::new();
    assert_eq!(get_nx(&mut v, 1, 2), Err(StatsError::EmptyInput));
}

#[test]
fn gc_of_all_a_is_zero() {
    assert_eq!(get_gc_bases(b"AAAA"), 0);
    assert_eq!(percent_centi(0, 4), 0);
}

#[test]
fn gc_of_all_gc_is_full() {
    assert_eq!(get_gc_bases(b"GCGC"), 4);
    assert_eq!(percent_centi(4, 4), 10000);
}

#[test]
fn gc_of_empty_is_zero_percent() {
    assert_eq!(get_gc_bases(b""), 0);
    // an empty sequence has no bases; the share is defined as zero
    assert_eq!(percent_centi(0, 0), 0);
}

#[test]
fn gc_counts_lowercase_but_not_ambiguity_codes() {
    assert_eq!(get_gc_bases(b"gcGCnNAT"), 4);
}

#[test]
fn qual_cutoff_33_counts_every_code() {
    let q: Vec<u8> = vec![33, 40, 74, 43, 33];
    assert_eq!(get_qual_bases(&q, 33), q.len() as u64);
}

#[test]
fn qual_cutoff_is_compared_in_encoded_domain() {
    // Phred 20 threshold is the encoded cutoff 53
    let q: Vec<u8> = vec![52, 53, 54, 63];
    assert_eq!(get_qual_bases(&q, 53), 3);
    assert_eq!(get_qual_bases(&q, 63), 1);
}

#[test]
fn mean_quality_of_uniform_phred_10() {
    // codes 43 are Phred 10, error probability 0.1; the mean probability
    // is 0.1 and converts back to exactly 10
    let q: Vec<u8> = vec![43, 43, 43, 43];
    assert_eq!(qscore_mean(&q), Ok(10));
}

#[test]
fn mean_quality_of_uniform_phred_20() {
    let q: Vec<u8> = vec![53, 53];
    assert_eq!(qscore_mean(&q), Ok(20));
}

#[test]
fn mean_quality_averages_in_probability_space() {
    // Phred 0 and Phred 20: mean probability (1.0 + 0.01) / 2 = 0.505,
    // whose Phred value truncates to 2 - far below the arithmetic mean 10
    let q: Vec<u8> = vec![33, 53];
    assert_eq!(qscore_mean(&q), Ok(2));
}

#[test]
fn mean_quality_of_empty_is_degenerate_record() {
    let q: Vec<u8> = Vec::new();
    assert_eq!(qscore_mean(&q), Err(StatsError::DegenerateRecord));
}

#[test]
fn percent_centi_floors_the_ratio() {
    assert_eq!(percent_centi(1, 3), 3333);
    assert_eq!(percent_centi(2, 3), 6666);
}
