//! Distribution binning, cumulative yield, and display bins on concrete
//! inputs.

use fastx_stats::histogram::{cumulative_yield, display_cumulative, display_histogram,
    length_bins_bases, length_bins_count, quality_bins_bases, quality_bins_count};

#[test]
fn length_count_bins_sum_to_reads() {
    let lengths: Vec<u64> = vec![100, 200, 300];
    let bins = length_bins_count(&lengths, 100);
    assert_eq!(bins.len(), 30);
    assert_eq!(bins[1], 1);
    assert_eq!(bins[2], 1);
    assert_eq!(bins[3], 1);
    assert_eq!(bins.iter().sum::<u64>(), 3);
}

#[test]
fn length_bin_overflow_folds_into_last_bin() {
    let lengths: Vec<u64> = vec![999999, 2900, 2950];
    let bins = length_bins_count(&lengths, 100);
    // 29 * 100 = 2900 is already the open-ended bin
    assert_eq!(bins[29], 3);
    assert_eq!(bins.iter().sum::<u64>(), 3);
}

#[test]
fn length_base_bins_sum_to_bases() {
    let lengths: Vec<u64> = vec![100, 200, 300];
    let bins = length_bins_bases(&lengths, 100);
    assert_eq!(bins[1], 100);
    assert_eq!(bins[2], 200);
    assert_eq!(bins[3], 300);
    assert_eq!(bins.iter().sum::<u64>(), 600);
}

#[test]
fn quality_count_bins_span_two_values() {
    let quals: Vec<u8> = vec![10, 11, 21, 90];
    let bins = quality_bins_count(&quals);
    assert_eq!(bins[5], 2);
    assert_eq!(bins[10], 1);
    // 90 / 2 = 45 folds into the open-ended bin
    assert_eq!(bins[29], 1);
    assert_eq!(bins.iter().sum::<u64>(), 4);
}

#[test]
fn quality_base_bins_come_from_the_code_histogram() {
    let mut codes: Vec<u64> = vec![0; 256];
    codes[43] = 4;  // Phred 10: bin 5
    codes[33] = 2;  // Phred 0: bin 0
    codes[34] = 1;  // Phred 1: bin 0
    let bins = quality_bins_bases(&codes);
    assert_eq!(bins[0], 3);
    assert_eq!(bins[5], 4);
    assert_eq!(bins.iter().sum::<u64>(), 7);
}

#[test]
fn cumulative_yield_is_nonincreasing_suffix_sums() {
    let lengths: Vec<u64> = vec![100, 200, 300];
    let base_bins = length_bins_bases(&lengths, 100);
    let c = cumulative_yield(&base_bins);
    assert_eq!(c[0], 600);
    assert_eq!(c[1], 600);
    assert_eq!(c[2], 500);
    assert_eq!(c[3], 300);
    assert_eq!(c[4], 0);
    for i in 0..29 {
        assert!(c[i] >= c[i + 1]);
    }
    assert_eq!(c[0], base_bins.iter().sum::<u64>());
}

#[test]
fn display_histogram_normalizes_against_the_tallest_bin() {
    let lengths: Vec<u64> = vec![100, 200, 300];
    let base_bins = length_bins_bases(&lengths, 100);
    let out = display_histogram(&base_bins, 100);
    assert_eq!(out.len(), 30);
    assert_eq!(out[1].raw, 100);
    assert_eq!(out[1].lower, 100);
    assert_eq!(out[1].upper, Some(200));
    // tallest bin holds 300 bases: 100 * 100 / 300 floors to 33
    assert_eq!(out[1].height_percent, 33);
    assert_eq!(out[3].height_percent, 100);
    // share of total: 100 * 1000 / 600 floors to 166 tenths of a percent
    assert_eq!(out[1].fraction_tenths, 166);
    assert_eq!(out[29].upper, None);
    assert_eq!(out[29].lower, 2900);
}

#[test]
fn display_histogram_of_empty_bins_has_zero_heights() {
    let lengths: Vec<u64> = Vec::new();
    let bins = length_bins_count(&lengths, 1000);
    let out = display_histogram(&bins, 1000);
    for b in out.iter() {
        assert_eq!(b.height_percent, 0);
        assert_eq!(b.fraction_tenths, 0);
    }
}

#[test]
fn display_cumulative_starts_at_full_yield() {
    let lengths: Vec<u64> = vec![100, 200, 300];
    let base_bins = length_bins_bases(&lengths, 100);
    let out = display_cumulative(&base_bins, 100);
    assert_eq!(out[0].raw, 600);
    assert_eq!(out[0].height_percent, 100);
    assert_eq!(out[0].fraction_tenths, 1000);
    assert_eq!(out[2].raw, 500);
    // 500 * 100 / 600 floors to 83
    assert_eq!(out[2].height_percent, 83);
    for i in 0..29 {
        assert!(out[i].raw >= out[i + 1].raw);
    }
}
