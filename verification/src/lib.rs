//! Structured-logging setup helpers: a small option language for choosing a
//! severity threshold, per-target filter directives and console output, a
//! run-once initialization plan built from those options, and the metadata
//! (service, component, timestamp) attached to every emitted record.

use vstd::prelude::*;

pub mod context;
pub mod filter;
pub mod init;
pub mod options;
pub mod text;

verus! {

pub use context::LogContext;
pub use context::current_timestamp;
pub use init::InitAction;
pub use init::InitError;
pub use init::InitGuard;
pub use init::InitPlan;
pub use init::build_env_filter;
pub use init::build_plan;
pub use options::LogOption;
pub use options::LogSettings;
pub use options::SettingsModel;
pub use options::resolve_options;
pub use text::clean_directives;

} // verus!
