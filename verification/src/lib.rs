//! Boot-health watchdog core: tiered health checks, the boot-partition mount
//! guard and the health-check and rollback flows, written without any I/O of
//! their own. Every engine is a function from what has been observed so far to
//! the next request; a driver performs the request and records the answer:
//!
//! ```text
//! let mut record = Record::new();
//! let end = loop {
//!     match health_check(&config, &disabled, &record) {
//!         Step::Need(request) => record.record(perform(request)),
//!         Step::Done(end) => break end,
//!     }
//! };
//! ```
//!
//! What an engine answers is stated over a model of it, a function on
//! sequences of characters and numbers; the laws that the models obey stand
//! beside them as proof functions.

pub mod diagnostics;
pub mod health;
pub mod mount;
pub mod observe;
pub mod scripts;
pub mod text;

pub use diagnostics::{run_diagnostics, run_green, run_red, DiagnosticsError, Tier};
pub use health::{
    check_previous_rollback, generate_motd_message, health_check, trigger_rollback,
    GreenbootConfig, HealthCheckError, JournalError, RollbackError,
};
pub use mount::{
    is_boot_rw, is_mounted_rw, remount_boot_ro, remount_boot_rw, MountChange, MountError, MountStep,
    RemountFlags,
};
pub use observe::{Answer, Effect, JournalOutput, Observations, Record, Request, Step};
pub use scripts::{
    run_scripts, Candidate, FileMeta, Listing, ScriptEntry, ScriptError, ScriptKind,
    ScriptOutcome, ScriptRunResult, TierStep,
};
