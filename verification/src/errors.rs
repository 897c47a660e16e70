use vstd::prelude::*;

verus! {

/// The error taxonomy of the engine.
///
/// Admission errors (`AlreadyRunning`, `NotRunning`) are returned
/// synchronously to the caller and never retried. Runtime supervision errors
/// (`SpawnFailed`, `WaitFailed`) drive the restart/terminate decision and are
/// reported as log events. Update and install errors abort the remaining
/// pipeline steps immediately.
#[derive(Clone, Copy, Debug, PartialEq, Eq, Structural)]
pub enum SupervisorError {
    /// The identity is already registered; duplicate supervision is rejected.
    AlreadyRunning,
    /// The identity is not registered.
    NotRunning,
    /// The process has no stdin channel (starting, between restarts, or exited).
    StdinUnavailable,
    /// The child process could not be spawned.
    SpawnFailed,
    /// Waiting on the child process failed.
    WaitFailed,
    /// The registry lock was poisoned by a prior panic.
    RegistryPoisoned,
    /// No configuration file was found in the project directory.
    ConfigMissing,
    /// A configuration file was found but could not be parsed.
    ConfigParseError,
    /// A configuration file already exists and would be overwritten.
    ConfigExists,
    /// An update is available but the expected release asset is absent.
    UpdateAssetMissing,
    /// The update artifact (or release manifest) could not be obtained.
    DownloadFailed,
    /// The update artifact could not be unpacked.
    ExtractFailed,
    /// No application bundle could be located.
    BundleNotFound,
    /// Swapping the new bundle into place failed.
    SwapFailed,
}

} // verus!
