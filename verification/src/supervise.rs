use vstd::prelude::*;
use vstd::string::StringExecFns;
use crate::errors::SupervisorError;
use crate::registry::{ProcessRegistry, empty_handle, process_key, process_key_spec};

verus! {

/// Status of a supervised process, as reported to the event sink.
#[derive(Clone, Copy, Debug, PartialEq, Eq, Structural)]
pub enum ProcessStatus {
    Running,
    Stopped,
    Crashed,
}

/// Which output stream a log line came from.
#[derive(Clone, Copy, Debug, PartialEq, Eq, Structural)]
pub enum LogStream {
    Stdout,
    Stderr,
}

/// How one run of the child ended.
#[derive(Clone, Copy, Debug, PartialEq, Eq, Structural)]
pub enum ExitSummary {
    /// The child exited with this code.
    Code { code: i32 },
    /// The child was terminated by a signal.
    BySignal,
    /// Waiting on the child itself failed.
    WaitFailed,
}

/// Where the supervision loop of one logical process stands.
#[derive(Clone, Copy, Debug, PartialEq, Eq, Structural)]
pub enum SupervisePhase {
    /// At the top of the loop, before the stop check and the next spawn.
    ReadyToSpawn,
    /// A spawn was issued; its outcome is pending.
    Spawning,
    /// The child is alive; the loop is blocked on wait.
    Running,
    /// The loop has terminated permanently; the identity has left the
    /// registry and is available for a fresh start.
    Finished,
}

/// What the supervision thread observed at one of its decision points.
#[derive(Clone, Copy, Debug, PartialEq, Eq, Structural)]
pub enum SuperviseEvent {
    /// The loop reached its top; the stop flag read this value.
    LoopEntry { stop_requested: bool },
    /// The spawn failed.
    SpawnFailed,
    /// The spawn succeeded with this OS pid (also the process-group id).
    SpawnSucceeded { pid: u32 },
    /// The child exited; the stop flag read this value afterwards.
    ChildExited { exit: ExitSummary, stop_requested: bool },
}

/// An instruction to the embedding application. Actions are performed in
/// order; none of them feeds a decision back except through the next event.
#[derive(Clone, Copy, Debug, PartialEq, Eq, Structural)]
pub enum SuperviseAction {
    /// Spawn the configured command through the login shell, in its own
    /// process group, with piped stdio.
    SpawnChild,
    /// Record the fresh pid and the captured stdin channel in the registry.
    RecordSpawn { pid: u32 },
    /// Emit a status notification for this identity.
    EmitStatus { status: ProcessStatus },
    /// Emit a stderr log line reporting the failed spawn.
    EmitSpawnFailedLog,
    /// Emit a stdout/stderr log line reporting how the child ended.
    EmitExitLog { exit: ExitSummary },
    /// Start the two per-stream log reader tasks.
    StartLogReaders,
    /// Clear the registry's stdin channel for this identity.
    ClearStdin,
    /// Sleep this many milliseconds before the next loop iteration.
    Sleep { ms: u64 },
    /// Remove the identity from the registry; the loop is over for good.
    RemoveFromRegistry,
}

/// Fixed backoff between a crash and the next spawn attempt.
pub const RESTART_BACKOFF_MS: u64 = 1000;

/// Whether an observation can occur in a phase.
pub open spec fn event_fits(phase: SupervisePhase, event: SuperviseEvent) -> bool {
    match (phase, event) {
        (SupervisePhase::ReadyToSpawn, SuperviseEvent::LoopEntry { .. }) => true,
        (SupervisePhase::Spawning, SuperviseEvent::SpawnFailed) => true,
        (SupervisePhase::Spawning, SuperviseEvent::SpawnSucceeded { .. }) => true,
        (SupervisePhase::Running, SuperviseEvent::ChildExited { .. }) => true,
        _ => false,
    }
}

/// The actions the supervision loop performs in response to an observation.
///
/// This is the transition function of the ProcessRunner state machine:
/// a requested stop ends the loop silently before a spawn and with a
/// `stopped` status after an exit; an exit or spawn failure without a stop
/// emits `crashed` and either backs off and retries (`autorestart`) or ends
/// the loop; every permanent end removes the identity from the registry.
pub open spec fn step_actions(
    event: SuperviseEvent,
    autorestart: bool,
) -> Seq<SuperviseAction> {
    match event {
        SuperviseEvent::LoopEntry { stop_requested } => {
            if stop_requested {
                seq![SuperviseAction::RemoveFromRegistry]
            } else {
                seq![SuperviseAction::SpawnChild]
            }
        },
        SuperviseEvent::SpawnFailed => {
            if autorestart {
                seq![
                    SuperviseAction::EmitSpawnFailedLog,
                    SuperviseAction::EmitStatus { status: ProcessStatus::Crashed },
                    SuperviseAction::Sleep { ms: RESTART_BACKOFF_MS },
                ]
            } else {
                seq![
                    SuperviseAction::EmitSpawnFailedLog,
                    SuperviseAction::EmitStatus { status: ProcessStatus::Crashed },
                    SuperviseAction::RemoveFromRegistry,
                ]
            }
        },
        SuperviseEvent::SpawnSucceeded { pid } => {
            seq![
                SuperviseAction::RecordSpawn { pid },
                SuperviseAction::EmitStatus { status: ProcessStatus::Running },
                SuperviseAction::StartLogReaders,
            ]
        },
        SuperviseEvent::ChildExited { exit, stop_requested } => {
            if stop_requested {
                seq![
                    SuperviseAction::ClearStdin,
                    SuperviseAction::EmitExitLog { exit },
                    SuperviseAction::EmitStatus { status: ProcessStatus::Stopped },
                    SuperviseAction::RemoveFromRegistry,
                ]
            } else if autorestart {
                seq![
                    SuperviseAction::ClearStdin,
                    SuperviseAction::EmitExitLog { exit },
                    SuperviseAction::EmitStatus { status: ProcessStatus::Crashed },
                    SuperviseAction::Sleep { ms: RESTART_BACKOFF_MS },
                ]
            } else {
                seq![
                    SuperviseAction::ClearStdin,
                    SuperviseAction::EmitExitLog { exit },
                    SuperviseAction::EmitStatus { status: ProcessStatus::Crashed },
                    SuperviseAction::RemoveFromRegistry,
                ]
            }
        },
    }
}

/// The phase the loop is in after responding to an observation.
pub open spec fn step_next(event: SuperviseEvent, autorestart: bool) -> SupervisePhase {
    match event {
        SuperviseEvent::LoopEntry { stop_requested } => {
            if stop_requested {
                SupervisePhase::Finished
            } else {
                SupervisePhase::Spawning
            }
        },
        SuperviseEvent::SpawnFailed => {
            if autorestart {
                SupervisePhase::ReadyToSpawn
            } else {
                SupervisePhase::Finished
            }
        },
        SuperviseEvent::SpawnSucceeded { .. } => SupervisePhase::Running,
        SuperviseEvent::ChildExited { stop_requested, .. } => {
            if stop_requested {
                SupervisePhase::Finished
            } else if autorestart {
                SupervisePhase::ReadyToSpawn
            } else {
                SupervisePhase::Finished
            }
        },
    }
}

/// One decision of the supervision loop: given the phase, the observation
/// made in it, and the process's `autorestart` setting, yields the actions
/// to perform in order and the next phase.
pub fn supervision_step(
    phase: SupervisePhase,
    event: SuperviseEvent,
    autorestart: bool,
) -> (r: (Vec<SuperviseAction>, SupervisePhase))
    requires
        event_fits(phase, event),
    ensures
        r.0@ == step_actions(event, autorestart),
        r.1 == step_next(event, autorestart),
{
    let mut actions: Vec<SuperviseAction> = Vec::new();
    let next: SupervisePhase = match event {
        SuperviseEvent::LoopEntry { stop_requested } => {
            if stop_requested {
                actions.push(SuperviseAction::RemoveFromRegistry);
                SupervisePhase::Finished
            } else {
                actions.push(SuperviseAction::SpawnChild);
                SupervisePhase::Spawning
            }
        },
        SuperviseEvent::SpawnFailed => {
            actions.push(SuperviseAction::EmitSpawnFailedLog);
            actions.push(SuperviseAction::EmitStatus { status: ProcessStatus::Crashed });
            if autorestart {
                actions.push(SuperviseAction::Sleep { ms: RESTART_BACKOFF_MS });
                SupervisePhase::ReadyToSpawn
            } else {
                actions.push(SuperviseAction::RemoveFromRegistry);
                SupervisePhase::Finished
            }
        },
        SuperviseEvent::SpawnSucceeded { pid } => {
            actions.push(SuperviseAction::RecordSpawn { pid });
            actions.push(SuperviseAction::EmitStatus { status: ProcessStatus::Running });
            actions.push(SuperviseAction::StartLogReaders);
            SupervisePhase::Running
        },
        SuperviseEvent::ChildExited { exit, stop_requested } => {
            actions.push(SuperviseAction::ClearStdin);
            actions.push(SuperviseAction::EmitExitLog { exit });
            if stop_requested {
                actions.push(SuperviseAction::EmitStatus { status: ProcessStatus::Stopped });
                actions.push(SuperviseAction::RemoveFromRegistry);
                SupervisePhase::Finished
            } else {
                actions.push(SuperviseAction::EmitStatus { status: ProcessStatus::Crashed });
                if autorestart {
                    actions.push(SuperviseAction::Sleep { ms: RESTART_BACKOFF_MS });
                    SupervisePhase::ReadyToSpawn
                } else {
                    actions.push(SuperviseAction::RemoveFromRegistry);
                    SupervisePhase::Finished
                }
            }
        },
    };
    proof {
        assert(actions@ =~= step_actions(event, autorestart));
    }
    (actions, next)
}

/// A process that exits while no stop was requested and whose configuration
/// forbids restarting transitions to `crashed` and leaves the registry for
/// good: the loop is finished and nothing in its response spawns again.
pub proof fn lemma_crash_without_autorestart_is_final(exit: ExitSummary)
    ensures
        step_next(SuperviseEvent::ChildExited { exit, stop_requested: false }, false)
            == SupervisePhase::Finished,
        step_actions(SuperviseEvent::ChildExited { exit, stop_requested: false }, false).contains(
            SuperviseAction::EmitStatus { status: ProcessStatus::Crashed },
        ),
        step_actions(SuperviseEvent::ChildExited { exit, stop_requested: false }, false).contains(
            SuperviseAction::RemoveFromRegistry,
        ),
        forall|a: SuperviseAction|
            step_actions(SuperviseEvent::ChildExited { exit, stop_requested: false }, false).contains(
                a,
            ) ==> a != SuperviseAction::SpawnChild,
{
    let s = step_actions(SuperviseEvent::ChildExited { exit, stop_requested: false }, false);
    assert(s[2] == SuperviseAction::EmitStatus { status: ProcessStatus::Crashed });
    assert(s[3] == SuperviseAction::RemoveFromRegistry);
    assert(s.contains(s[2]));
    assert(s.contains(s[3]));
    assert forall|a: SuperviseAction| s.contains(a) implies a != SuperviseAction::SpawnChild by {
        let i = choose|i: int| 0 <= i < s.len() && s[i] == a;
        assert(s.len() == 4);
    }
}

/// A process that exits while no stop was requested and whose configuration
/// allows restarting backs off for the fixed one-second delay and returns to
/// the top of the loop, where the next spawn happens only after the stop
/// flag is read again; the exit response itself spawns nothing.
pub proof fn lemma_autorestart_backs_off_and_respawns(exit: ExitSummary)
    ensures
        step_next(SuperviseEvent::ChildExited { exit, stop_requested: false }, true)
            == SupervisePhase::ReadyToSpawn,
        step_actions(SuperviseEvent::ChildExited { exit, stop_requested: false }, true).last()
            == (SuperviseAction::Sleep { ms: RESTART_BACKOFF_MS }),
        RESTART_BACKOFF_MS == 1000,
        forall|a: SuperviseAction|
            step_actions(SuperviseEvent::ChildExited { exit, stop_requested: false }, true).contains(
                a,
            ) ==> a != SuperviseAction::SpawnChild,
        step_actions(SuperviseEvent::LoopEntry { stop_requested: false }, true) == seq![
            SuperviseAction::SpawnChild,
        ],
{
    let s = step_actions(SuperviseEvent::ChildExited { exit, stop_requested: false }, true);
    assert forall|a: SuperviseAction| s.contains(a) implies a != SuperviseAction::SpawnChild by {
        let i = choose|i: int| 0 <= i < s.len() && s[i] == a;
        assert(s.len() == 4);
    }
}

/// A start immediately followed by a start of the same identity is
/// rejected: a successful start leaves the identity's key in the registry,
/// and [`start_process`] returns `AlreadyRunning` for every registered key,
/// whatever handle it carries.
pub proof fn lemma_second_start_rejected(
    m: Map<Seq<char>, crate::registry::ProcessHandle>,
    key: Seq<char>,
)
    ensures
        m.insert(key, empty_handle()).contains_key(key),
{
}

/// Admission for starting a process: builds the registry key for the
/// identity and registers an empty handle. Fails fast with `AlreadyRunning`
/// if the identity is already supervised; on success the returned key names
/// the fresh registration and the supervision loop may begin in
/// [`SupervisePhase::ReadyToSpawn`].
pub fn start_process(
    reg: &mut ProcessRegistry,
    project_path: &str,
    process_name: &str,
) -> (r: Result<String, SupervisorError>)
    requires
        old(reg).wf(),
    ensures
        final(reg).wf(),
        old(reg)@.contains_key(process_key_spec(project_path@, process_name@)) ==> r
            == Err::<String, SupervisorError>(SupervisorError::AlreadyRunning) && final(reg)@
            == old(reg)@,
        !old(reg)@.contains_key(process_key_spec(project_path@, process_name@)) ==> (r matches Ok(k)
            && k@ == process_key_spec(project_path@, process_name@)) && final(reg)@ == old(
            reg,
        )@.insert(process_key_spec(project_path@, process_name@), empty_handle()),
{
    let key = process_key(project_path, process_name);
    match reg.register(&key) {
        Ok(()) => Ok(key),
        Err(e) => Err(e),
    }
}

/// Gate for writing to a process's stdin: `NotRunning` if the identity is
/// not registered, `StdinUnavailable` if it is registered but has no open
/// stdin channel (still starting, between restarts, or exited), and `Ok`
/// exactly when a write may proceed.
pub fn write_to_process(
    reg: &ProcessRegistry,
    project_path: &str,
    process_name: &str,
) -> (r: Result<(), SupervisorError>)
    requires
        reg.wf(),
    ensures
        !reg@.contains_key(process_key_spec(project_path@, process_name@)) ==> r == Err::<
            (),
            SupervisorError,
        >(SupervisorError::NotRunning),
        reg@.contains_key(process_key_spec(project_path@, process_name@)) && !reg@[
            process_key_spec(project_path@, process_name@)
        ].stdin_open ==> r == Err::<(), SupervisorError>(SupervisorError::StdinUnavailable),
        reg@.contains_key(process_key_spec(project_path@, process_name@)) && reg@[
            process_key_spec(project_path@, process_name@)
        ].stdin_open ==> r == Ok::<(), SupervisorError>(()),
{
    let key = process_key(project_path, process_name);
    match reg.get(&key) {
        None => Err(SupervisorError::NotRunning),
        Some(handle) => {
            if handle.stdin_open {
                Ok(())
            } else {
                Err(SupervisorError::StdinUnavailable)
            }
        },
    }
}

/// A status notification: one observation about one identity.
pub struct StatusEvent {
    pub project_path: String,
    pub process_name: String,
    pub status: ProcessStatus,
}

/// A log notification: one line from one stream of one identity.
pub struct LogEvent {
    pub project_path: String,
    pub process_name: String,
    pub line: String,
    pub stream: LogStream,
}

/// Builds the status notification for an identity.
pub fn make_status_event(project_path: &str, process_name: &str, status: ProcessStatus) -> (e:
    StatusEvent)
    ensures
        e.project_path@ == project_path@,
        e.process_name@ == process_name@,
        e.status == status,
{
    StatusEvent {
        project_path: project_path.to_owned(),
        process_name: process_name.to_owned(),
        status,
    }
}

/// Builds the log notification for one line from an identity's stream.
pub fn make_log_event(project_path: &str, process_name: &str, line: String, stream: LogStream) -> (
    e: LogEvent)
    ensures
        e.project_path@ == project_path@,
        e.process_name@ == process_name@,
        e.line@ == line@,
        e.stream == stream,
{
    LogEvent {
        project_path: project_path.to_owned(),
        process_name: process_name.to_owned(),
        line,
        stream,
    }
}

} // verus!
