//! The snapshot data model: one consistent, immutable capture of system
//! and process metrics at a point in time.
//!
//! Fractional metrics (CPU percentages, load averages) are carried as
//! integer hundredths so the whole report pipeline stays exact.

use vstd::prelude::*;

verus! {

/// One process observed at sample time.
#[derive(Debug)]
pub struct ProcessSample {
    /// Process identifier.
    pub pid: u64,
    /// Executable or display name; not necessarily unique or non-empty.
    pub name: String,
    /// CPU usage since the previous refresh, in hundredths of a percent.
    pub cpu_centi_percent: u64,
    /// Resident memory in kibibytes.
    pub memory_kb: u64,
}

impl Clone for ProcessSample {
    fn clone(&self) -> (r: Self)
        ensures
            r == *self,
    {
        ProcessSample {
            pid: self.pid,
            name: self.name.clone(),
            cpu_centi_percent: self.cpu_centi_percent,
            memory_kb: self.memory_kb,
        }
    }
}

/// One-, five- and fifteen-minute load averages, in hundredths.
#[derive(Clone, Copy, Debug)]
pub struct LoadAverages {
    pub one_centi: u64,
    pub five_centi: u64,
    pub fifteen_centi: u64,
}

/// One consistent capture of system-wide and per-process metrics.
#[derive(Debug)]
pub struct Snapshot {
    /// Aggregate CPU utilization, in hundredths of a percent.
    pub global_cpu_centi_percent: u64,
    /// Number of logical cores.
    pub core_count: u64,
    pub total_memory_kb: u64,
    pub used_memory_kb: u64,
    pub available_memory_kb: u64,
    /// Number of live processes at sample time.
    pub process_count: u64,
    pub uptime_seconds: u64,
    /// Present only on platforms that expose the metric.
    pub load_averages: Option<LoadAverages>,
    /// One entry per live process; order is unspecified until ranked.
    pub processes: Vec<ProcessSample>,
}

} // verus!
