//! The two-phase sampling protocol, as a verified state machine.
//!
//! A meaningful per-process CPU percentage needs two counter readings
//! separated by a quiescent interval: a baseline refresh, a rest of at
//! least [`MIN_QUIESCENT_MS`], then a delta refresh. The driver that
//! owns the process data source asks [`next_action`] what to do,
//! performs the action, and reports back through [`advance`]; a
//! snapshot can be assembled only once the protocol has run to its
//! measured state, which provably requires the full rest.

use vstd::prelude::*;

use crate::snapshot::{LoadAverages, ProcessSample, Snapshot};

verus! {

/// The minimum quiescent interval, in milliseconds, between the
/// baseline and delta refresh phases.
pub const MIN_QUIESCENT_MS: u64 = 200;

/// Where a sampling cycle stands.
#[derive(Clone, Copy, PartialEq, Eq, Structural, Debug)]
pub enum SamplePhase {
    /// Nothing measured yet.
    Start,
    /// The baseline refresh has completed.
    Baselined,
    /// The quiescent interval has elapsed; `waited_ms` records it.
    Rested { waited_ms: u64 },
    /// The delta refresh has completed; per-process CPU deltas are valid.
    Measured { waited_ms: u64 },
}

/// What the driver must do next.
#[derive(Clone, Copy, PartialEq, Eq, Structural, Debug)]
pub enum SampleAction {
    /// Full refresh of memory, CPU state and the process table.
    RefreshBaseline,
    /// Suspend for at least `ms` milliseconds.
    Rest { ms: u64 },
    /// Lighter refresh of CPU usage and process CPU only.
    RefreshDelta,
    /// Read the source's figures and assemble the snapshot.
    Collect,
}

/// What the driver reports back.
#[derive(Clone, Copy, PartialEq, Eq, Structural, Debug)]
pub enum SampleEvent {
    BaselineDone,
    /// The suspension finished after `ms` milliseconds.
    RestDone { ms: u64 },
    DeltaDone,
}

/// The action the protocol prescribes in each phase.
pub open spec fn spec_next_action(p: SamplePhase) -> SampleAction {
    match p {
        SamplePhase::Start => SampleAction::RefreshBaseline,
        SamplePhase::Baselined => SampleAction::Rest { ms: MIN_QUIESCENT_MS },
        SamplePhase::Rested { .. } => SampleAction::RefreshDelta,
        SamplePhase::Measured { .. } => SampleAction::Collect,
    }
}

/// The action the protocol prescribes in the given phase.
pub fn next_action(p: &SamplePhase) -> (a: SampleAction)
    ensures
        a == spec_next_action(*p),
{
    match p {
        SamplePhase::Start => SampleAction::RefreshBaseline,
        SamplePhase::Baselined => SampleAction::Rest { ms: MIN_QUIESCENT_MS },
        SamplePhase::Rested { .. } => SampleAction::RefreshDelta,
        SamplePhase::Measured { .. } => SampleAction::Collect,
    }
}

/// The protocol's transition relation. `None` means the event is not
/// acceptable in the phase; in particular a rest shorter than
/// [`MIN_QUIESCENT_MS`] does not advance the cycle.
pub open spec fn spec_advance(p: SamplePhase, e: SampleEvent) -> Option<SamplePhase> {
    match (p, e) {
        (SamplePhase::Start, SampleEvent::BaselineDone) => Some(SamplePhase::Baselined),
        (SamplePhase::Baselined, SampleEvent::RestDone { ms }) => if ms >= MIN_QUIESCENT_MS {
            Some(SamplePhase::Rested { waited_ms: ms })
        } else {
            None
        },
        (SamplePhase::Rested { waited_ms }, SampleEvent::DeltaDone) => Some(
            SamplePhase::Measured { waited_ms },
        ),
        _ => None,
    }
}

/// Advances the protocol by one reported event; `None` leaves the
/// driver to retry (a short rest) or abandon the cycle (a protocol
/// violation).
pub fn advance(p: &SamplePhase, e: &SampleEvent) -> (r: Option<SamplePhase>)
    ensures
        r == spec_advance(*p, *e),
{
    match (p, e) {
        (SamplePhase::Start, SampleEvent::BaselineDone) => Some(SamplePhase::Baselined),
        (SamplePhase::Baselined, SampleEvent::RestDone { ms }) => {
            if *ms >= MIN_QUIESCENT_MS {
                Some(SamplePhase::Rested { waited_ms: *ms })
            } else {
                None
            }
        },
        (SamplePhase::Rested { waited_ms }, SampleEvent::DeltaDone) => Some(
            SamplePhase::Measured { waited_ms: *waited_ms },
        ),
        _ => None,
    }
}

/// The phase reached from [`SamplePhase::Start`] by a sequence of
/// events, or `None` if some event was not acceptable when it came.
pub open spec fn run_events(t: Seq<SampleEvent>) -> Option<SamplePhase>
    decreases t.len(),
{
    if t.len() == 0 {
        Some(SamplePhase::Start)
    } else {
        match run_events(t.drop_last()) {
            Some(p) => spec_advance(p, t.last()),
            None => None,
        }
    }
}

/// Quiescent-interval law: a cycle reaches its measured state only by
/// exactly one baseline refresh, one rest of at least
/// [`MIN_QUIESCENT_MS`] milliseconds, and one delta refresh, in that
/// order.
pub proof fn lemma_two_phase_protocol(t: Seq<SampleEvent>, w: u64)
    requires
        run_events(t) == Some(SamplePhase::Measured { waited_ms: w }),
    ensures
        w >= MIN_QUIESCENT_MS,
        t =~= seq![
            SampleEvent::BaselineDone,
            SampleEvent::RestDone { ms: w },
            SampleEvent::DeltaDone,
        ],
{
    assert(t.len() != 0);
    let t2 = t.drop_last();
    assert(run_events(t2) == Some(SamplePhase::Rested { waited_ms: w }));
    assert(t.last() == SampleEvent::DeltaDone);
    assert(t2.len() != 0);
    let t1 = t2.drop_last();
    assert(run_events(t1) == Some(SamplePhase::Baselined));
    assert(t2.last() == SampleEvent::RestDone { ms: w });
    assert(w >= MIN_QUIESCENT_MS);
    assert(t1.len() != 0);
    let t0 = t1.drop_last();
    assert(run_events(t0) == Some(SamplePhase::Start));
    assert(t1.last() == SampleEvent::BaselineDone);
    if t0.len() != 0 {
        assert(run_events(t0) is Some);
        assert(spec_advance(run_events(t0.drop_last())->Some_0, t0.last()) != Some(
            SamplePhase::Start,
        ));
    }
    assert(t0.len() == 0);
}

/// Why a sampling cycle failed to produce a snapshot.
#[derive(Clone, Copy, PartialEq, Eq, Structural, Debug)]
pub enum SampleError {
    /// The process data source was unavailable or a query failed.
    SourceUnavailable,
    /// The two-phase protocol had not reached its measured state.
    ProtocolIncomplete,
}

/// The figures read from the process data source after the delta phase.
pub struct SourceReadings {
    /// Aggregate CPU utilization, in hundredths of a percent.
    pub global_cpu_centi_percent: u64,
    /// Number of logical cores.
    pub core_count: u64,
    pub total_memory_kb: u64,
    pub used_memory_kb: u64,
    pub available_memory_kb: u64,
    pub uptime_seconds: u64,
    /// Present only on platforms that expose the metric.
    pub load_averages: Option<LoadAverages>,
    /// One entry per live process, CPU figures from the delta phase.
    pub processes: Vec<ProcessSample>,
}

/// The snapshot assembled verbatim from the source's figures.
pub open spec fn snapshot_of(r: SourceReadings) -> Snapshot {
    Snapshot {
        global_cpu_centi_percent: r.global_cpu_centi_percent,
        core_count: r.core_count,
        total_memory_kb: r.total_memory_kb,
        used_memory_kb: r.used_memory_kb,
        available_memory_kb: r.available_memory_kb,
        process_count: r.processes@.len() as u64,
        uptime_seconds: r.uptime_seconds,
        load_averages: r.load_averages,
        processes: r.processes,
    }
}

/// Assembles a snapshot from the source's figures. Succeeds exactly
/// when the source answered every query and the protocol has reached
/// its measured state; no partial snapshot is ever returned.
pub fn assemble(phase: &SamplePhase, source_ok: bool, readings: SourceReadings) -> (r: Result<
    Snapshot,
    SampleError,
>)
    ensures
        r is Ok <==> (source_ok && phase matches SamplePhase::Measured { .. }),
        !source_ok ==> r == Err::<Snapshot, SampleError>(SampleError::SourceUnavailable),
        (source_ok && phase matches SamplePhase::Measured { .. }) ==> r == Ok::<
            Snapshot,
            SampleError,
        >(snapshot_of(readings)),
        (source_ok && !(phase matches SamplePhase::Measured { .. })) ==> r == Err::<
            Snapshot,
            SampleError,
        >(SampleError::ProtocolIncomplete),
{
    if !source_ok {
        return Err(SampleError::SourceUnavailable);
    }
    match phase {
        SamplePhase::Measured { .. } => {
            let count = readings.processes.len();
            Ok(
                Snapshot {
                    global_cpu_centi_percent: readings.global_cpu_centi_percent,
                    core_count: readings.core_count,
                    total_memory_kb: readings.total_memory_kb,
                    used_memory_kb: readings.used_memory_kb,
                    available_memory_kb: readings.available_memory_kb,
                    process_count: count as u64,
                    uptime_seconds: readings.uptime_seconds,
                    load_averages: readings.load_averages,
                    processes: readings.processes,
                },
            )
        },
        _ => Err(SampleError::ProtocolIncomplete),
    }
}

} // verus!
