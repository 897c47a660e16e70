use myterm::registry::ProcessRegistry;
use myterm::supervise::start_process;
use myterm::shutdown::{
    stop_process, escalation_target, force_kill_decision, shutdown_wait_step, ShutdownPhase,
    ShutdownStep, STOP_GRACE_MS, SHUTDOWN_GRACE_MS, SHUTDOWN_SETTLE_MS, SHUTDOWN_POLL_MS,
};

#[test]
fn stop_sets_the_flag_and_schedules_the_three_second_recheck() {
    let mut reg = ProcessRegistry::new();
    let key = start_process(&mut reg, "/p", "web").unwrap();
    reg.record_spawn(&key, 555);
    let plan = stop_process(&mut reg, "/p", "web").unwrap();
    assert_eq!(plan.pgid, 555);
    assert_eq!(plan.recheck_after_ms, STOP_GRACE_MS);
    assert_eq!(STOP_GRACE_MS, 3000);
    assert!(reg.get(&key).unwrap().stop_requested);
}

#[test]
fn stop_before_spawn_yields_no_group_to_signal() {
    let mut reg = ProcessRegistry::new();
    start_process(&mut reg, "/p", "web").unwrap();
    let plan = stop_process(&mut reg, "/p", "web").unwrap();
    assert_eq!(plan.pgid, 0);
}

#[test]
fn escalation_prefers_the_current_registry_pid() {
    let mut reg = ProcessRegistry::new();
    let key = start_process(&mut reg, "/p", "web").unwrap();
    reg.record_spawn(&key, 100);
    let plan = stop_process(&mut reg, "/p", "web").unwrap();
    // A restart replaced the pid while the timer slept.
    reg.record_spawn(&key, 200);
    let target = escalation_target(reg.get(&key), plan.pgid);
    assert_eq!(target, 200);
    // The identity left the registry meanwhile: fall back to the captured pid.
    reg.remove(&key);
    let target = escalation_target(reg.get(&key), plan.pgid);
    assert_eq!(target, 100);
}

#[test]
fn surviving_group_is_force_killed_after_the_grace_period() {
    // A child that ignores the graceful terminate still exists at the
    // recheck: the escalation delivers the forced kill.
    assert!(force_kill_decision(555, true));
    // A child that exited in time is left alone.
    assert!(!force_kill_decision(555, false));
    // An unassigned group id is never signalled.
    assert!(!force_kill_decision(0, true));
}

#[test]
fn shutdown_wait_polls_only_inside_the_windows() {
    assert_eq!(shutdown_wait_step(ShutdownPhase::Grace, 0, false), ShutdownStep::Poll);
    assert_eq!(shutdown_wait_step(ShutdownPhase::Grace, 799, false), ShutdownStep::Poll);
    assert_eq!(shutdown_wait_step(ShutdownPhase::Grace, 800, false), ShutdownStep::ForceKill);
    assert_eq!(shutdown_wait_step(ShutdownPhase::Settling, 50, false), ShutdownStep::Poll);
    assert_eq!(shutdown_wait_step(ShutdownPhase::Settling, 800, false), ShutdownStep::Done);
    assert_eq!(SHUTDOWN_GRACE_MS, 800);
    assert_eq!(SHUTDOWN_SETTLE_MS, 800);
    assert_eq!(SHUTDOWN_POLL_MS, 50);
}

#[test]
fn shutdown_wait_ends_at_once_when_everyone_exited() {
    assert_eq!(shutdown_wait_step(ShutdownPhase::Grace, 0, true), ShutdownStep::Done);
    assert_eq!(shutdown_wait_step(ShutdownPhase::Settling, 0, true), ShutdownStep::Done);
}

#[test]
fn shutdown_of_three_running_identities_signals_all_three() {
    let mut reg = ProcessRegistry::new();
    let a = start_process(&mut reg, "/p", "a").unwrap();
    let b = start_process(&mut reg, "/p", "b").unwrap();
    let c = start_process(&mut reg, "/p", "c").unwrap();
    reg.record_spawn(&a, 1);
    reg.record_spawn(&b, 2);
    reg.record_spawn(&c, 3);
    let pgids = reg.drain_all();
    assert_eq!(pgids.len(), 3);
    for pgid in [1u32, 2, 3] {
        assert!(pgids.contains(&pgid));
    }
    // A group still alive when the grace window has fully elapsed is
    // force-killed within the second window; the sweep is bounded either way.
    assert_eq!(shutdown_wait_step(ShutdownPhase::Grace, 800, false), ShutdownStep::ForceKill);
    assert_eq!(shutdown_wait_step(ShutdownPhase::Settling, 800, false), ShutdownStep::Done);
}
