//! Batch orchestration across files: `Idle -> Processing -> (Completed |
//! Cancelled) -> Idle`.
//!
//! The orchestrator owns the batch state and is its only writer. Files are
//! processed in input order; a file enters the batch only when its
//! aggregation fully finished, so cancelling mid-file simply never hands
//! the in-flight partial over and nothing of it is recorded. A file the
//! decoder or a reducer rejected is listed as failed and skipped; the
//! running totals cover the successfully completed files alone. Progress
//! counts fully processed files (completed or failed) against the number
//! expected, and moves only at file boundaries.

use crate::aggregate::FileMetrics;
use crate::math::{lemma_scaled_ratio_le, pct_whole};
use crate::StatsError;
use vstd::prelude::*;

verus! {

/// Where the batch stands in its lifecycle.
#[derive(Clone, Copy, Debug, PartialEq, Eq, Structural)]
pub enum BatchStatus {
    Idle,
    Processing,
    Completed,
    Cancelled,
}

/// A file the batch skipped, with the error that removed it.
pub struct FailedFile {
    pub name: String,
    pub error: StatsError,
}

/// Reads of all completed files together.
pub open spec fn total_reads_of(s: Seq<FileMetrics>) -> int
    decreases s.len(),
{
    if s.len() == 0 {
        0
    } else {
        total_reads_of(s.drop_last()) + s.last().reads
    }
}

/// Bases of all completed files together.
pub open spec fn total_bases_of(s: Seq<FileMetrics>) -> int
    decreases s.len(),
{
    if s.len() == 0 {
        0
    } else {
        total_bases_of(s.drop_last()) + s.last().bases
    }
}

/// State of one upload-and-process cycle.
pub struct BatchState {
    pub status: BatchStatus,
    pub files: Vec<FileMetrics>,
    pub failed: Vec<FailedFile>,
    pub total_reads: u64,
    pub total_bases: u64,
    pub files_expected: u64,
    pub files_completed: u64,
    pub cancel_requested: bool,
}

impl BatchState {
    /// Internal consistency: the totals are the sums over the completed
    /// files, progress counts completed and failed files and never
    /// overshoots, an idle batch is empty, a processing batch still has
    /// files to go, and a completed one has none.
    pub open spec fn wf(self) -> bool {
        &&& self.total_reads == total_reads_of(self.files@)
        &&& self.total_bases == total_bases_of(self.files@)
        &&& self.files_completed == self.files@.len() + self.failed@.len()
        &&& self.files_completed <= self.files_expected
        &&& (self.status is Idle ==> self.files_expected == 0 && self.files@.len() == 0
            && self.failed@.len() == 0 && self.total_reads == 0 && self.total_bases == 0
            && !self.cancel_requested)
        &&& (self.status is Processing ==> self.files_completed < self.files_expected)
        &&& (self.status is Completed ==> self.files_completed == self.files_expected)
    }

    /// An idle batch with nothing recorded.
    pub fn new() -> (b: Self)
        ensures
            b.wf(),
            b.status is Idle,
            b.files@.len() == 0,
            b.failed@.len() == 0,
            b.total_reads == 0,
            b.total_bases == 0,
            b.files_expected == 0,
            b.files_completed == 0,
            !b.cancel_requested,
    {
        BatchState {
            status: BatchStatus::Idle,
            files: Vec::new(),
            failed: Vec::new(),
            total_reads: 0,
            total_bases: 0,
            files_expected: 0,
            files_completed: 0,
            cancel_requested: false,
        }
    }

    /// Accepts a new list of `n` files and starts processing; a batch of
    /// zero files has nothing to do and completes at once.
    pub fn start(&mut self, n: u64)
        requires
            old(self).wf(),
            old(self).status is Idle,
        ensures
            final(self).wf(),
            final(self).files_expected == n,
            final(self).files_completed == 0,
            final(self).files@.len() == 0,
            final(self).failed@.len() == 0,
            final(self).total_reads == 0,
            final(self).total_bases == 0,
            !final(self).cancel_requested,
            final(self).status == (if n == 0 {
                BatchStatus::Completed
            } else {
                BatchStatus::Processing
            }),
    {
        self.files_expected = n;
        self.status = if n == 0 {
            BatchStatus::Completed
        } else {
            BatchStatus::Processing
        };
    }

    /// Records one fully aggregated file: appends its metrics, adds its
    /// reads and bases to the running totals, and advances progress. When
    /// it was the last expected file the batch completes.
    pub fn complete_file(&mut self, fm: FileMetrics)
        requires
            old(self).wf(),
            old(self).status is Processing,
            old(self).total_reads + fm.reads <= u64::MAX,
            old(self).total_bases + fm.bases <= u64::MAX,
        ensures
            final(self).wf(),
            final(self).files@ == old(self).files@.push(fm),
            final(self).failed@ == old(self).failed@,
            final(self).total_reads == old(self).total_reads + fm.reads,
            final(self).total_bases == old(self).total_bases + fm.bases,
            final(self).files_expected == old(self).files_expected,
            final(self).files_completed == old(self).files_completed + 1,
            final(self).cancel_requested == old(self).cancel_requested,
            final(self).status == (if old(self).files_completed + 1
                == old(self).files_expected {
                BatchStatus::Completed
            } else {
                BatchStatus::Processing
            }),
    {
        self.total_reads = self.total_reads + fm.reads;
        self.total_bases = self.total_bases + fm.bases;
        proof {
            assert(self.files@.push(fm).drop_last() =~= self.files@);
        }
        self.files.push(fm);
        self.files_completed = self.files_completed + 1;
        if self.files_completed == self.files_expected {
            self.status = BatchStatus::Completed;
        }
    }

    /// Records one file the batch had to skip — a decode failure, or a
    /// fault scoped to that file — and advances progress without touching
    /// the totals, so the batch carries on with the next file.
    pub fn fail_file(&mut self, name: String, error: StatsError)
        requires
            old(self).wf(),
            old(self).status is Processing,
        ensures
            final(self).wf(),
            final(self).files@ == old(self).files@,
            (final(self).failed@ == old(self).failed@.push(FailedFile { name, error })),
            final(self).total_reads == old(self).total_reads,
            final(self).total_bases == old(self).total_bases,
            final(self).files_expected == old(self).files_expected,
            final(self).files_completed == old(self).files_completed + 1,
            final(self).cancel_requested == old(self).cancel_requested,
            final(self).status == (if old(self).files_completed + 1
                == old(self).files_expected {
                BatchStatus::Completed
            } else {
                BatchStatus::Processing
            }),
    {
        self.failed.push(FailedFile { name, error });
        self.files_completed = self.files_completed + 1;
        if self.files_completed == self.files_expected {
            self.status = BatchStatus::Completed;
        }
    }

    /// Raises the cancellation flag. The flag is only a request: the
    /// processing loop observes it at the next record or file boundary.
    pub fn request_cancel(&mut self)
        requires
            old(self).wf(),
            old(self).status is Processing,
        ensures
            final(self).wf(),
            final(self).cancel_requested,
            final(self).status == old(self).status,
            final(self).files@ == old(self).files@,
            final(self).failed@ == old(self).failed@,
            final(self).total_reads == old(self).total_reads,
            final(self).total_bases == old(self).total_bases,
            final(self).files_expected == old(self).files_expected,
            final(self).files_completed == old(self).files_completed,
    {
        self.cancel_requested = true;
    }

    /// Stops the batch on an observed cancellation request. The caller
    /// discards the in-flight file's partial aggregation; files completed
    /// before this point keep their results.
    pub fn acknowledge_cancel(&mut self)
        requires
            old(self).wf(),
            old(self).status is Processing,
            old(self).cancel_requested,
        ensures
            final(self).wf(),
            final(self).status is Cancelled,
            final(self).files@ == old(self).files@,
            final(self).failed@ == old(self).failed@,
            final(self).total_reads == old(self).total_reads,
            final(self).total_bases == old(self).total_bases,
            final(self).files_expected == old(self).files_expected,
            final(self).files_completed == old(self).files_completed,
            final(self).cancel_requested == old(self).cancel_requested,
    {
        self.status = BatchStatus::Cancelled;
    }

    /// Clears everything and returns to idle, ready for a new batch.
    pub fn reset(&mut self)
        requires
            old(self).wf(),
            !(old(self).status is Processing),
        ensures
            final(self).wf(),
            final(self).status is Idle,
            final(self).files@.len() == 0,
            final(self).failed@.len() == 0,
            final(self).total_reads == 0,
            final(self).total_bases == 0,
            final(self).files_expected == 0,
            final(self).files_completed == 0,
            !final(self).cancel_requested,
    {
        self.status = BatchStatus::Idle;
        self.files.clear();
        self.failed.clear();
        self.total_reads = 0;
        self.total_bases = 0;
        self.files_expected = 0;
        self.files_completed = 0;
        self.cancel_requested = false;
    }

    /// Progress as whole percent of fully processed files, zero for an
    /// empty batch; it reaches one hundred only when the last expected
    /// file has been processed.
    pub fn progress_percent(&self) -> (r: u64)
        requires
            self.wf(),
        ensures
            r == pct_whole(self.files_completed as int, self.files_expected as int),
            r <= 100,
    {
        proof {
            lemma_scaled_ratio_le(self.files_completed as int, self.files_expected as int, 100);
        }
        if self.files_expected == 0 {
            0
        } else {
            ((self.files_completed as u128 * 100) / (self.files_expected as u128)) as u64
        }
    }
}

} // verus!
