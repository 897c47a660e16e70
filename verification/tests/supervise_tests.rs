use myterm::supervise::{
    supervision_step, SupervisePhase, SuperviseEvent, SuperviseAction, ProcessStatus, ExitSummary,
    RESTART_BACKOFF_MS, make_status_event, make_log_event, LogStream,
};

#[test]
fn stop_before_spawn_ends_the_loop_silently() {
    let (actions, next) = supervision_step(
        SupervisePhase::ReadyToSpawn,
        SuperviseEvent::LoopEntry { stop_requested: true },
        true,
    );
    assert_eq!(actions, vec![SuperviseAction::RemoveFromRegistry]);
    assert_eq!(next, SupervisePhase::Finished);
}

#[test]
fn loop_entry_without_stop_spawns() {
    let (actions, next) = supervision_step(
        SupervisePhase::ReadyToSpawn,
        SuperviseEvent::LoopEntry { stop_requested: false },
        false,
    );
    assert_eq!(actions, vec![SuperviseAction::SpawnChild]);
    assert_eq!(next, SupervisePhase::Spawning);
}

#[test]
fn successful_spawn_records_and_reports_running() {
    let (actions, next) = supervision_step(
        SupervisePhase::Spawning,
        SuperviseEvent::SpawnSucceeded { pid: 99 },
        false,
    );
    assert_eq!(
        actions,
        vec![
            SuperviseAction::RecordSpawn { pid: 99 },
            SuperviseAction::EmitStatus { status: ProcessStatus::Running },
            SuperviseAction::StartLogReaders,
        ]
    );
    assert_eq!(next, SupervisePhase::Running);
}

#[test]
fn spawn_failure_without_autorestart_ends_as_crashed() {
    let (actions, next) =
        supervision_step(SupervisePhase::Spawning, SuperviseEvent::SpawnFailed, false);
    assert_eq!(
        actions,
        vec![
            SuperviseAction::EmitSpawnFailedLog,
            SuperviseAction::EmitStatus { status: ProcessStatus::Crashed },
            SuperviseAction::RemoveFromRegistry,
        ]
    );
    assert_eq!(next, SupervisePhase::Finished);
}

#[test]
fn spawn_failure_with_autorestart_backs_off_and_retries() {
    let (actions, next) =
        supervision_step(SupervisePhase::Spawning, SuperviseEvent::SpawnFailed, true);
    assert_eq!(actions.last(), Some(&SuperviseAction::Sleep { ms: RESTART_BACKOFF_MS }));
    assert_eq!(next, SupervisePhase::ReadyToSpawn);
}

#[test]
fn nonzero_exit_without_autorestart_crashes_and_is_removed_for_good() {
    let (actions, next) = supervision_step(
        SupervisePhase::Running,
        SuperviseEvent::ChildExited {
            exit: ExitSummary::Code { code: 3 },
            stop_requested: false,
        },
        false,
    );
    assert_eq!(
        actions,
        vec![
            SuperviseAction::ClearStdin,
            SuperviseAction::EmitExitLog { exit: ExitSummary::Code { code: 3 } },
            SuperviseAction::EmitStatus { status: ProcessStatus::Crashed },
            SuperviseAction::RemoveFromRegistry,
        ]
    );
    assert_eq!(next, SupervisePhase::Finished);
    assert!(!actions.contains(&SuperviseAction::SpawnChild));
}

#[test]
fn exit_with_autorestart_sleeps_a_second_then_respawns() {
    let (actions, next) = supervision_step(
        SupervisePhase::Running,
        SuperviseEvent::ChildExited {
            exit: ExitSummary::Code { code: 1 },
            stop_requested: false,
        },
        true,
    );
    assert_eq!(RESTART_BACKOFF_MS, 1000);
    assert_eq!(actions.last(), Some(&SuperviseAction::Sleep { ms: 1000 }));
    assert!(!actions.contains(&SuperviseAction::SpawnChild));
    assert_eq!(next, SupervisePhase::ReadyToSpawn);
    // The respawn happens only at the top of the next iteration.
    let (follow_up, after) = supervision_step(
        next,
        SuperviseEvent::LoopEntry { stop_requested: false },
        true,
    );
    assert_eq!(follow_up, vec![SuperviseAction::SpawnChild]);
    assert_eq!(after, SupervisePhase::Spawning);
}

#[test]
fn exit_after_stop_reports_stopped_and_never_restarts() {
    let (actions, next) = supervision_step(
        SupervisePhase::Running,
        SuperviseEvent::ChildExited { exit: ExitSummary::BySignal, stop_requested: true },
        true,
    );
    assert_eq!(
        actions,
        vec![
            SuperviseAction::ClearStdin,
            SuperviseAction::EmitExitLog { exit: ExitSummary::BySignal },
            SuperviseAction::EmitStatus { status: ProcessStatus::Stopped },
            SuperviseAction::RemoveFromRegistry,
        ]
    );
    assert_eq!(next, SupervisePhase::Finished);
}

#[test]
fn wait_failure_is_handled_like_an_exit() {
    let (actions, next) = supervision_step(
        SupervisePhase::Running,
        SuperviseEvent::ChildExited { exit: ExitSummary::WaitFailed, stop_requested: false },
        false,
    );
    assert_eq!(actions[1], SuperviseAction::EmitExitLog { exit: ExitSummary::WaitFailed });
    assert_eq!(next, SupervisePhase::Finished);
}

#[test]
fn event_builders_carry_the_identity_through() {
    let s = make_status_event("/p", "web", ProcessStatus::Running);
    assert_eq!(s.project_path, "/p");
    assert_eq!(s.process_name, "web");
    assert_eq!(s.status, ProcessStatus::Running);
    let l = make_log_event("/p", "web", "hello".to_string(), LogStream::Stderr);
    assert_eq!(l.project_path, "/p");
    assert_eq!(l.process_name, "web");
    assert_eq!(l.line, "hello");
    assert_eq!(l.stream, LogStream::Stderr);
}
