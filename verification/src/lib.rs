//! Supervision engine for a local development-process runner.
//!
//! The library models the full decision logic of the runner: admission and
//! bookkeeping of supervised processes (`registry`), the per-process
//! supervision state machine (`supervise`), stop escalation and bulk shutdown
//! (`shutdown`), version comparison and update evaluation (`version`,
//! `update`), bundle path resolution (`paths`), project configuration
//! discovery and parsing (`config`), and the self-restart protocol
//! (`restart`). Everything that touches the operating system (spawning,
//! signalling, file I/O, timers) is performed by the embedding application,
//! which feeds observed events back into the verified decision functions.

pub mod errors;
pub mod text;
pub mod version;
pub mod registry;
pub mod supervise;
pub mod shutdown;
pub mod paths;
pub mod json;
pub mod yaml;
pub mod update;
pub mod restart;
pub mod config;
