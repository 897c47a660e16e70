use vstd::prelude::*;
use crate::errors::SupervisorError;
use crate::registry::{ProcessRegistry, ProcessHandle, process_key, process_key_spec};

verus! {

/// Grace period a stopped process group is given before the forced kill
/// check.
pub const STOP_GRACE_MS: u64 = 3000;

/// First bounded wait of the application-exit sweep: how long groups get to
/// exit voluntarily after the graceful terminate.
pub const SHUTDOWN_GRACE_MS: u64 = 800;

/// Second bounded wait: how long forced kills get to land before the caller
/// proceeds regardless.
pub const SHUTDOWN_SETTLE_MS: u64 = 800;

/// Poll interval during both shutdown waits.
pub const SHUTDOWN_POLL_MS: u64 = 50;

/// The response to a `stop` request: signal this group gracefully now (a
/// no-op if the group id is 0, i.e. nothing was spawned yet), then re-probe
/// after the grace period and escalate to a forced kill if the group is
/// still alive.
#[derive(Clone, Copy, Debug, PartialEq, Eq, Structural)]
pub struct StopPlan {
    /// The process group to terminate gracefully; 0 when no pid was
    /// recorded, in which case no signal is sent.
    pub pgid: u32,
    /// Milliseconds to wait before the escalation re-check.
    pub recheck_after_ms: u64,
}

/// Requests a stop of one identity: sets the cooperative stop flag (read by
/// the supervision loop at its next decision point) and yields the plan for
/// the graceful-then-forceful signalling. Fails with `NotRunning` if and
/// only if the identity is not registered, leaving the registry unchanged.
pub fn stop_process(
    reg: &mut ProcessRegistry,
    project_path: &str,
    process_name: &str,
) -> (r: Result<StopPlan, SupervisorError>)
    requires
        old(reg).wf(),
    ensures
        final(reg).wf(),
        !old(reg)@.contains_key(process_key_spec(project_path@, process_name@)) ==> r == Err::<
            StopPlan,
            SupervisorError,
        >(SupervisorError::NotRunning) && final(reg)@ == old(reg)@,
        old(reg)@.contains_key(process_key_spec(project_path@, process_name@)) ==> r == Ok::<
            StopPlan,
            SupervisorError,
        >(
            StopPlan {
                pgid: old(reg)@[process_key_spec(project_path@, process_name@)].pid,
                recheck_after_ms: STOP_GRACE_MS,
            },
        ) && final(reg)@ == old(reg)@.insert(
            process_key_spec(project_path@, process_name@),
            ProcessHandle {
                pid: old(reg)@[process_key_spec(project_path@, process_name@)].pid,
                stop_requested: true,
                stdin_open: old(reg)@[process_key_spec(project_path@, process_name@)].stdin_open,
            },
        ),
{
    let key = process_key(project_path, process_name);
    match reg.request_stop(&key) {
        None => Err(SupervisorError::NotRunning),
        Some(pgid) => Ok(StopPlan { pgid, recheck_after_ms: STOP_GRACE_MS }),
    }
}

/// The group the escalation re-check targets: the pid currently recorded in
/// the registry for the identity (a restart may have replaced it), falling
/// back to the pid captured when the stop was requested.
pub fn escalation_target(current: Option<ProcessHandle>, original_pgid: u32) -> (r: u32)
    ensures
        r == match current {
            Some(h) => h.pid,
            None => original_pgid,
        },
{
    match current {
        Some(h) => h.pid,
        None => original_pgid,
    }
}

/// Whether the escalation delivers a forced kill: exactly when the grace
/// period passed with the group still alive. Group id 0 never existed, so
/// nothing is signalled for it.
pub fn force_kill_decision(pgid: u32, group_exists: bool) -> (r: bool)
    ensures
        r == (group_exists && pgid != 0),
{
    group_exists && pgid != 0
}

/// Which of the two bounded waits of the application-exit sweep is running.
#[derive(Clone, Copy, Debug, PartialEq, Eq, Structural)]
pub enum ShutdownPhase {
    /// After the graceful terminate of every group: waiting for voluntary
    /// exits.
    Grace,
    /// After the forced kills: waiting only for the kills to land.
    Settling,
}

/// What the sweep does next.
#[derive(Clone, Copy, Debug, PartialEq, Eq, Structural)]
pub enum ShutdownStep {
    /// Sleep one poll interval, then re-probe the groups.
    Poll,
    /// Force-kill every group that still exists, and enter `Settling`.
    ForceKill,
    /// The sweep is over; the application may exit.
    Done,
}

/// Decision of the shutdown sweep: given the phase, the time elapsed in it,
/// and whether every group has exited, what to do next. Each phase waits at
/// most its bounded window; children that ignore everything cannot extend
/// the sweep.
pub open spec fn shutdown_step_spec(
    phase: ShutdownPhase,
    elapsed_ms: u64,
    all_exited: bool,
) -> ShutdownStep {
    if all_exited {
        ShutdownStep::Done
    } else {
        match phase {
            ShutdownPhase::Grace => {
                if elapsed_ms < SHUTDOWN_GRACE_MS {
                    ShutdownStep::Poll
                } else {
                    ShutdownStep::ForceKill
                }
            },
            ShutdownPhase::Settling => {
                if elapsed_ms < SHUTDOWN_SETTLE_MS {
                    ShutdownStep::Poll
                } else {
                    ShutdownStep::Done
                }
            },
        }
    }
}

/// One decision of the bounded shutdown wait.
pub fn shutdown_wait_step(phase: ShutdownPhase, elapsed_ms: u64, all_exited: bool) -> (r:
    ShutdownStep)
    ensures
        r == shutdown_step_spec(phase, elapsed_ms, all_exited),
{
    if all_exited {
        ShutdownStep::Done
    } else {
        match phase {
            ShutdownPhase::Grace => {
                if elapsed_ms < SHUTDOWN_GRACE_MS {
                    ShutdownStep::Poll
                } else {
                    ShutdownStep::ForceKill
                }
            },
            ShutdownPhase::Settling => {
                if elapsed_ms < SHUTDOWN_SETTLE_MS {
                    ShutdownStep::Poll
                } else {
                    ShutdownStep::Done
                }
            },
        }
    }
}

/// The shutdown sweep's waits are bounded: a poll is only ever ordered
/// while the running phase's window (800 ms each) has not elapsed, the
/// forced kill comes exactly when the grace window expires with a group
/// still alive, and once every group has exited the sweep is done at once.
/// With two windows of `SHUTDOWN_GRACE_MS` and `SHUTDOWN_SETTLE_MS` the
/// sweep therefore returns within roughly 1.6 seconds regardless of child
/// behaviour.
pub proof fn lemma_shutdown_wait_bounded(phase: ShutdownPhase, elapsed_ms: u64, all_exited: bool)
    ensures
        shutdown_step_spec(phase, elapsed_ms, all_exited) == ShutdownStep::Poll ==> elapsed_ms
            < SHUTDOWN_GRACE_MS && elapsed_ms < SHUTDOWN_SETTLE_MS,
        shutdown_step_spec(phase, elapsed_ms, all_exited) == ShutdownStep::ForceKill ==> (
        !all_exited && phase == ShutdownPhase::Grace && elapsed_ms >= SHUTDOWN_GRACE_MS),
        all_exited ==> shutdown_step_spec(phase, elapsed_ms, all_exited) == ShutdownStep::Done,
        phase == ShutdownPhase::Settling && elapsed_ms >= SHUTDOWN_SETTLE_MS ==> shutdown_step_spec(
            phase,
            elapsed_ms,
            all_exited,
        ) == ShutdownStep::Done,
{
}

} // verus!
