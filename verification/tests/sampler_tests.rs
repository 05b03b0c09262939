use sysmon::control::{is_watch_mode, kill_outcome, KillOutcome};
use sysmon::sampler::{
    advance, assemble, next_action, SampleAction, SampleError, SampleEvent, SamplePhase,
    SourceReadings, MIN_QUIESCENT_MS,
};
use sysmon::snapshot::ProcessSample;

fn readings() -> SourceReadings {
    SourceReadings {
        global_cpu_centi_percent: 1234,
        core_count: 4,
        total_memory_kb: 1000,
        used_memory_kb: 600,
        available_memory_kb: 400,
        uptime_seconds: 77,
        load_averages: None,
        processes: vec![ProcessSample {
            pid: 1,
            name: "init".to_string(),
            cpu_centi_percent: 5,
            memory_kb: 128,
        }],
    }
}

#[test]
fn protocol_prescribes_the_two_phase_cycle() {
    assert_eq!(next_action(&SamplePhase::Start), SampleAction::RefreshBaseline);
    assert_eq!(
        next_action(&SamplePhase::Baselined),
        SampleAction::Rest { ms: MIN_QUIESCENT_MS }
    );
    assert_eq!(
        next_action(&SamplePhase::Rested { waited_ms: 250 }),
        SampleAction::RefreshDelta
    );
    assert_eq!(
        next_action(&SamplePhase::Measured { waited_ms: 250 }),
        SampleAction::Collect
    );
}

#[test]
fn full_cycle_reaches_measured() {
    let p1 = advance(&SamplePhase::Start, &SampleEvent::BaselineDone).unwrap();
    assert_eq!(p1, SamplePhase::Baselined);
    let p2 = advance(&p1, &SampleEvent::RestDone { ms: MIN_QUIESCENT_MS }).unwrap();
    assert_eq!(p2, SamplePhase::Rested { waited_ms: MIN_QUIESCENT_MS });
    let p3 = advance(&p2, &SampleEvent::DeltaDone).unwrap();
    assert_eq!(p3, SamplePhase::Measured { waited_ms: MIN_QUIESCENT_MS });
}

#[test]
fn short_rest_does_not_advance() {
    let p = advance(&SamplePhase::Baselined, &SampleEvent::RestDone { ms: MIN_QUIESCENT_MS - 1 });
    assert_eq!(p, None);
    let p = advance(&SamplePhase::Baselined, &SampleEvent::RestDone { ms: 0 });
    assert_eq!(p, None);
}

#[test]
fn out_of_order_events_rejected() {
    assert_eq!(advance(&SamplePhase::Start, &SampleEvent::DeltaDone), None);
    assert_eq!(advance(&SamplePhase::Start, &SampleEvent::RestDone { ms: 1000 }), None);
    assert_eq!(advance(&SamplePhase::Baselined, &SampleEvent::BaselineDone), None);
    assert_eq!(
        advance(&SamplePhase::Measured { waited_ms: 200 }, &SampleEvent::DeltaDone),
        None
    );
}

#[test]
fn assemble_needs_a_measured_phase() {
    let r = assemble(&SamplePhase::Baselined, true, readings());
    assert_eq!(r.unwrap_err(), SampleError::ProtocolIncomplete);
    let r = assemble(&SamplePhase::Start, true, readings());
    assert_eq!(r.unwrap_err(), SampleError::ProtocolIncomplete);
}

#[test]
fn assemble_fails_without_the_source() {
    let r = assemble(&SamplePhase::Measured { waited_ms: 200 }, false, readings());
    assert_eq!(r.unwrap_err(), SampleError::SourceUnavailable);
}

#[test]
fn assemble_copies_the_readings() {
    let snap = assemble(&SamplePhase::Measured { waited_ms: 200 }, true, readings()).unwrap();
    assert_eq!(snap.global_cpu_centi_percent, 1234);
    assert_eq!(snap.core_count, 4);
    assert_eq!(snap.total_memory_kb, 1000);
    assert_eq!(snap.used_memory_kb, 600);
    assert_eq!(snap.available_memory_kb, 400);
    assert_eq!(snap.uptime_seconds, 77);
    assert_eq!(snap.process_count, 1);
    assert_eq!(snap.processes.len(), 1);
    assert_eq!(snap.processes[0].pid, 1);
}

#[test]
fn watch_mode_only_on_exact_name() {
    assert!(is_watch_mode("watch"));
    assert!(!is_watch_mode("show"));
    assert!(!is_watch_mode("Watch"));
    assert!(!is_watch_mode(""));
}

#[test]
fn kill_outcomes() {
    assert_eq!(kill_outcome(false, false), KillOutcome::NotFound);
    assert_eq!(kill_outcome(false, true), KillOutcome::NotFound);
    assert_eq!(kill_outcome(true, true), KillOutcome::Killed);
    assert_eq!(kill_outcome(true, false), KillOutcome::SignalFailed);
}
