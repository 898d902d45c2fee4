//! Verified core of a sequencing-read statistics engine.
//!
//! Given decoded read records (a base sequence and an equal-length array of
//! offset-33 quality codes), this library computes per-file summary metrics
//! (read/base counts, GC fraction, quality-threshold fractions, generalized
//! Nx over read lengths, per-record mean quality and its median), renders
//! fixed 30-bin distributions in three display modes, and drives a batch of
//! files through a cancellable processing state machine.
//!
//! All ratios are reported in exact integer fixed point (hundredths or
//! tenths of a percent); decoding, decompression and presentation are left
//! to unverified collaborators around this crate.

pub mod aggregate;
pub mod batch;
pub mod histogram;
pub mod math;
pub mod order_stats;
pub mod qscore;
pub mod reducers;

use vstd::prelude::*;

verus! {

/// Failure kinds of the statistics core.
///
/// `DegenerateRecord`: a zero-length record, whose probability-domain mean
/// quality is undefined; such a record is excluded from aggregation.
/// `EmptyInput`: an order statistic was requested over an empty sample set.
/// `Decode`: an external decoder failed on a file; recorded per file.
/// `Cancelled`: the batch was stopped on user request; not a computation fault.
#[derive(Clone, Copy, Debug, PartialEq, Eq, Structural)]
pub enum StatsError {
    DegenerateRecord,
    EmptyInput,
    Decode,
    Cancelled,
}

} // verus!
