use ebishell::supervise::{cleanup_targets, Action, StageStatus, Supervisor};

#[test]
fn single_stage_run_to_report() {
    let mut sup = Supervisor::new(1);
    assert_eq!(sup.next_action(), Action::Spawn { stage: 0 });
    assert_eq!(sup.record_spawn_ok(), None);
    assert_eq!(sup.next_action(), Action::Wait { stage: 0 });
    sup.record_status(StageStatus::Exited(0));
    assert_eq!(sup.next_action(), Action::Report);
    let report = sup.report();
    assert_eq!(report.stages, vec![StageStatus::Exited(0)]);
}

#[test]
fn two_stage_run_closes_channel_after_consumer_spawns() {
    let mut sup = Supervisor::new(2);
    assert_eq!(sup.next_action(), Action::Spawn { stage: 0 });
    assert_eq!(sup.record_spawn_ok(), None);
    assert_eq!(sup.next_action(), Action::Spawn { stage: 1 });
    // Once stage 1 holds its ends, the engine's duplicates of channel 0
    // must be closed, or the consumer would never see end-of-file.
    assert_eq!(sup.record_spawn_ok(), Some(0));
    assert_eq!(sup.next_action(), Action::Wait { stage: 0 });
    sup.record_status(StageStatus::Exited(0));
    assert_eq!(sup.next_action(), Action::Wait { stage: 1 });
    sup.record_status(StageStatus::Exited(0));
    let report = sup.report();
    assert_eq!(report.stages.len(), 2);
}

#[test]
fn three_stage_run_chains_all_waits() {
    let mut sup = Supervisor::new(3);
    assert_eq!(sup.record_spawn_ok(), None);
    assert_eq!(sup.record_spawn_ok(), Some(0));
    assert_eq!(sup.record_spawn_ok(), Some(1));
    for i in 0..3 {
        assert_eq!(sup.next_action(), Action::Wait { stage: i });
        sup.record_status(StageStatus::Exited(0));
    }
    let report = sup.report();
    assert_eq!(report.stages.len(), 3);
}

#[test]
fn spawn_failure_on_second_stage_aborts_with_stage_one() {
    let mut sup = Supervisor::new(2);
    assert_eq!(sup.record_spawn_ok(), None);
    assert_eq!(sup.next_action(), Action::Spawn { stage: 1 });
    sup.record_spawn_failure();
    assert_eq!(sup.next_action(), Action::Abort { failed: 1 });
    // Exactly the already-spawned stage is killed and reaped.
    assert_eq!(cleanup_targets(1), vec![0]);
}

#[test]
fn spawn_failure_on_first_stage_kills_nothing() {
    let mut sup = Supervisor::new(3);
    sup.record_spawn_failure();
    assert_eq!(sup.next_action(), Action::Abort { failed: 0 });
    assert!(cleanup_targets(0).is_empty());
}

#[test]
fn wait_failure_recorded_without_stopping_siblings() {
    let mut sup = Supervisor::new(2);
    sup.record_spawn_ok();
    sup.record_spawn_ok();
    sup.record_status(StageStatus::WaitFailed);
    assert_eq!(sup.next_action(), Action::Wait { stage: 1 });
    sup.record_status(StageStatus::Signaled);
    let report = sup.report();
    assert_eq!(
        report.stages,
        vec![StageStatus::WaitFailed, StageStatus::Signaled]
    );
}

#[test]
fn cleanup_targets_in_spawn_order() {
    assert_eq!(cleanup_targets(4), vec![0, 1, 2, 3]);
}
