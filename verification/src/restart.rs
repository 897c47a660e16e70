use vstd::prelude::*;
use crate::errors::SupervisorError;
use crate::paths::{find_bundle_spec, find_app_bundle_path, is_backup_bundle_spec,
    resolve_primary_app_bundle_path, backup_bundle_path};

verus! {

/// Environment variable through which the relaunch helper receives the pid
/// it must wait on.
pub const RESTART_ENV_PID: &'static str = "MYTERM_PID";

/// Environment variable naming the bundle the helper reopens.
pub const RESTART_ENV_APP: &'static str = "MYTERM_APP";

/// Environment variable naming the backup bundle the helper deletes.
pub const RESTART_ENV_BACKUP: &'static str = "MYTERM_BACKUP";

/// The detached relaunch helper: polls for the watched pid to disappear
/// (100 ms, up to 15 attempts), opens the new bundle, waits briefly, then
/// deletes the backup. It runs in its own session and so survives the
/// parent's immediate exit.
pub const RESTART_HELPER_SCRIPT: &'static str = "#!/bin/sh\nTARGET_PID=\"$MYTERM_PID\"\nAPP_BUNDLE=\"$MYTERM_APP\"\nBACKUP_BUNDLE=\"$MYTERM_BACKUP\"\n\ni=0\nwhile [ $i -lt 15 ]; do\n  if ! kill -0 \"$TARGET_PID\" 2>/dev/null; then\n    break\n  fi\n  sleep 0.1\n  i=$((i+1))\ndone\n\nsleep 0.5\n/usr/bin/open -n \"$APP_BUNDLE\" >/dev/null 2>&1\nsleep 1\n/bin/rm -rf \"$BACKUP_BUNDLE\" >/dev/null 2>&1\n";

/// Process-wide one-shot flag: set immediately before a self-induced
/// process replacement to suppress the normal shutdown sweep, read once at
/// exit time.
pub struct RestartState {
    skip_process_cleanup: bool,
}

impl RestartState {
    /// Whether the normal exit cleanup is to be skipped.
    pub closed spec fn skipping(&self) -> bool {
        self.skip_process_cleanup
    }

    /// A fresh state: cleanup runs normally.
    pub fn new() -> (r: Self)
        ensures
            !r.skipping(),
    {
        RestartState { skip_process_cleanup: false }
    }

    /// Marks the in-flight update restart: from now on the exit path skips
    /// the process cleanup, since the supervisor and its children die with
    /// the process group anyway while the detached helper relaunches.
    pub fn mark_update_restart(&mut self)
        ensures
            final(self).skipping(),
    {
        self.skip_process_cleanup = true;
    }

    /// Reads the one-shot flag.
    pub fn should_skip_cleanup(&self) -> (r: bool)
        ensures
            r == self.skipping(),
    {
        self.skip_process_cleanup
    }
}

impl Default for RestartState {
    fn default() -> (r: Self)
        ensures
            !r.skipping(),
    {
        RestartState { skip_process_cleanup: false }
    }
}

/// The primary form of a bundle path: a backup bundle shorn of its ".old"
/// suffix, any other path unchanged.
pub open spec fn primary_of(p: Seq<char>) -> Seq<char> {
    if is_backup_bundle_spec(p) {
        p.take(p.len() - 4)
    } else {
        p
    }
}

/// Resolves the restart targets from the running executable's path: the
/// primary bundle the relaunch helper must reopen (normalising a
/// backup-suffixed path back to its primary form) and the backup bundle it
/// must delete afterwards.
pub fn restart_target(exe_path: &str) -> (r: Result<(String, String), SupervisorError>)
    ensures
        find_bundle_spec(exe_path@) is Some ==> (r matches Ok(t) && t.0@ == primary_of(
            find_bundle_spec(exe_path@).unwrap(),
        ) && t.1@ == primary_of(find_bundle_spec(exe_path@).unwrap()) + ".old"@),
        find_bundle_spec(exe_path@) is None ==> r == Err::<(String, String), SupervisorError>(
            SupervisorError::BundleNotFound,
        ),
{
    let running = match find_app_bundle_path(exe_path) {
        Ok(b) => b,
        Err(e) => {
            return Err(e);
        },
    };
    let primary = resolve_primary_app_bundle_path(running.as_str());
    let backup = backup_bundle_path(primary.as_str());
    Ok((primary, backup))
}

/// Gate for the restart: the new (primary) bundle must already be in place,
/// i.e. the install pipeline must have run; otherwise the restart is
/// refused and nothing is spawned.
pub fn restart_gate(primary_exists: bool) -> (r: Result<(), SupervisorError>)
    ensures
        primary_exists ==> r == Ok::<(), SupervisorError>(()),
        !primary_exists ==> r == Err::<(), SupervisorError>(SupervisorError::BundleNotFound),
{
    if primary_exists {
        Ok(())
    } else {
        Err(SupervisorError::BundleNotFound)
    }
}

} // verus!
