//! Per-file aggregation and the batch state machine, end to end.

use fastx_stats::aggregate::FileAggregator;
use fastx_stats::batch::{BatchState, BatchStatus};
use fastx_stats::StatsError;

fn aggregate_file(name: &str, lengths: &[usize]) -> fastx_stats::aggregate::FileMetrics {
    let mut agg = FileAggregator::new(name.to_string(), name.to_string());
    for &n in lengths {
        let seq: Vec<u8> = vec![b'A'; n];
        let qual: Vec<u8> = vec![43; n];
        assert!(agg.add_record(&seq, &qual).is_ok());
    }
    agg.finalize()
}

#[test]
fn aggregator_scenario_three_records() {
    let mut agg = FileAggregator::new("f.fastq".to_string(), "f.fastq".to_string());
    let recs: [(usize, u8); 3] = [(100, b'A'), (200, b'G'), (300, b'C')];
    for &(n, base) in recs.iter() {
        let seq: Vec<u8> = vec![base; n];
        let qual: Vec<u8> = vec![43; n];
        assert!(agg.add_record(&seq, &qual).is_ok());
    }
    let fm = agg.finalize();
    assert_eq!(fm.reads, 3);
    assert_eq!(fm.bases, 600);
    assert_eq!(fm.length_samples, vec![100, 200, 300]);
    assert_eq!(fm.nx, 300);
    // G and C records contribute every base: 500 / 600 floors to 83.33%
    assert_eq!(fm.gc_bases, 500);
    assert_eq!(fm.gc_percent_centi, 8333);
    // all codes are 43 (Phred 10): below both encoded cutoffs 53 and 63
    assert_eq!(fm.q20_bases, 0);
    assert_eq!(fm.q20_percent_centi, 0);
    assert_eq!(fm.q30_percent_centi, 0);
    // every record's probability-domain mean quality is 10
    assert_eq!(fm.quality_samples, vec![10, 10, 10]);
    assert_eq!(fm.median_quality, 10);
    // the per-code histogram saw 600 bases of code 43
    assert_eq!(fm.quality_histogram[43], 600);
    assert_eq!(fm.quality_histogram.iter().sum::<u64>(), 600);
}

#[test]
fn aggregator_rejects_empty_record_unchanged() {
    let mut agg = FileAggregator::new("f".to_string(), "f".to_string());
    let seq: Vec<u8> = Vec::new();
    let qual: Vec<u8> = Vec::new();
    assert_eq!(agg.add_record(&seq, &qual), Err(StatsError::DegenerateRecord));
    assert_eq!(agg.reads, 0);
    assert_eq!(agg.bases, 0);
    let fm = agg.finalize();
    assert_eq!(fm.reads, 0);
    // order statistics of an empty file are defined zero placeholders
    assert_eq!(fm.nx, 0);
    assert_eq!(fm.median_quality, 0);
    assert_eq!(fm.gc_percent_centi, 0);
}

#[test]
fn aggregator_keeps_equal_length_samples_in_order() {
    let fm = aggregate_file("dup", &[50, 50, 50]);
    assert_eq!(fm.length_samples, vec![50, 50, 50]);
    assert_eq!(fm.nx, 50);
    assert_eq!(fm.bases, 150);
}

#[test]
fn cancel_mid_second_file_keeps_only_the_first() {
    let mut batch = BatchState::new();
    batch.start(3);
    assert_eq!(batch.status, BatchStatus::Processing);

    // first file completes and enters the batch
    let fm1 = aggregate_file("one.fastq", &[100]);
    batch.complete_file(fm1);
    assert_eq!(batch.progress_percent(), 33);

    // second file is mid-aggregation when cancellation is requested; its
    // partial state is dropped, never handed to the batch
    let mut in_flight = FileAggregator::new("two.fastq".to_string(), "two.fastq".to_string());
    let seq: Vec<u8> = vec![b'A'; 40];
    let qual: Vec<u8> = vec![43; 40];
    assert!(in_flight.add_record(&seq, &qual).is_ok());
    batch.request_cancel();
    assert!(batch.cancel_requested);
    batch.acknowledge_cancel();
    drop(in_flight);

    assert_eq!(batch.status, BatchStatus::Cancelled);
    assert_eq!(batch.files.len(), 1);
    assert_eq!(batch.files[0].name, "one.fastq");
    assert_eq!(batch.total_reads, 1);
    assert_eq!(batch.total_bases, 100);
    assert_eq!(batch.files_completed, 1);
}

#[test]
fn batch_completes_when_all_files_finish() {
    let mut batch = BatchState::new();
    batch.start(2);
    batch.complete_file(aggregate_file("a", &[10, 20]));
    assert_eq!(batch.status, BatchStatus::Processing);
    assert_eq!(batch.progress_percent(), 50);
    batch.complete_file(aggregate_file("b", &[30]));
    assert_eq!(batch.status, BatchStatus::Completed);
    assert_eq!(batch.progress_percent(), 100);
    assert_eq!(batch.files_completed, 2);
    assert_eq!(batch.total_reads, 3);
    assert_eq!(batch.total_bases, 60);
}

#[test]
fn failed_file_is_skipped_and_kept_apart() {
    let mut batch = BatchState::new();
    batch.start(2);
    batch.fail_file("broken.fastq.gz".to_string(), StatsError::Decode);
    assert_eq!(batch.files.len(), 0);
    assert_eq!(batch.failed.len(), 1);
    assert_eq!(batch.failed[0].name, "broken.fastq.gz");
    assert_eq!(batch.failed[0].error, StatsError::Decode);
    assert_eq!(batch.total_reads, 0);
    batch.complete_file(aggregate_file("good.fastq", &[25]));
    assert_eq!(batch.status, BatchStatus::Completed);
    assert_eq!(batch.total_bases, 25);
}

#[test]
fn embedder_may_record_the_interrupted_file_as_skipped() {
    // an embedder that wants the cancelled in-flight file listed can
    // record it as skipped with the cancellation kind before stopping
    let mut batch = BatchState::new();
    batch.start(3);
    batch.complete_file(aggregate_file("done.fastq", &[10]));
    batch.request_cancel();
    batch.fail_file("half-read.fastq".to_string(), StatsError::Cancelled);
    batch.acknowledge_cancel();
    assert_eq!(batch.failed[0].error, StatsError::Cancelled);
    assert_eq!(batch.status, BatchStatus::Cancelled);
    assert_eq!(batch.files.len(), 1);
    assert_eq!(batch.total_bases, 10);
}

#[test]
fn reset_clears_everything() {
    let mut batch = BatchState::new();
    batch.start(1);
    batch.complete_file(aggregate_file("a", &[10]));
    assert_eq!(batch.status, BatchStatus::Completed);
    batch.reset();
    assert_eq!(batch.status, BatchStatus::Idle);
    assert_eq!(batch.files.len(), 0);
    assert_eq!(batch.failed.len(), 0);
    assert_eq!(batch.total_reads, 0);
    assert_eq!(batch.total_bases, 0);
    assert_eq!(batch.files_expected, 0);
    assert_eq!(batch.files_completed, 0);
}

#[test]
fn empty_batch_completes_at_once() {
    let mut batch = BatchState::new();
    batch.start(0);
    assert_eq!(batch.status, BatchStatus::Completed);
    assert_eq!(batch.progress_percent(), 0);
}
