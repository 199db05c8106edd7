//! Per-device disk I/O counters.
//!
//! These records are carried as plain data only; no parser fills them in and
//! the delta engine does not consume them.

use vstd::prelude::*;

verus! {

/// One device's cumulative I/O counters. All `time_*` fields are
/// milliseconds.
#[derive(Debug, Clone, PartialEq, Eq)]
pub struct DiskStat {
    pub major: u64,
    pub minor: u64,
    pub name: String,
    pub reads_completed: u64,
    pub reads_merged: u64,
    pub sectors_read: u64,
    pub time_reading: u64,
    pub writes_completed: u64,
    pub writes_merged: u64,
    pub sectors_written: u64,
    pub time_writing: u64,
    pub io_in_progress: u64,
    pub time_io: u64,
    pub time_io_weighted: u64,
}

/// The per-device counters of one sample, in report order.
pub struct DiskStats {
    inner: Vec<DiskStat>,
}

impl View for DiskStats {
    type V = Seq<DiskStat>;

    closed spec fn view(&self) -> Seq<DiskStat> {
        self.inner@
    }
}

impl DiskStats {
    /// Wraps an already-decoded list of per-device counters.
    pub fn new(inner: Vec<DiskStat>) -> (r: DiskStats)
        ensures
            r@ == inner@,
    {
        DiskStats { inner }
    }

    /// All per-device entries, in report order.
    pub fn iter(&self) -> (r: &Vec<DiskStat>)
        ensures
            r@ == self@,
    {
        &self.inner
    }
}

} // verus!
