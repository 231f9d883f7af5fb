//! A hanging-get notification hub: one producer of time updates fanned out to
//! any number of independently paced subscribers, plus the environment rules
//! that decide where analytics state lives and whether it is collected.
//!
//! `watch` holds the single-field hanging-get primitive, `session` the
//! per-subscriber pair of fields, `hub` the registry and fan-out, and `laws`
//! the properties that hold across calls.
pub mod env_info;
pub mod hub;
pub mod laws;
pub mod session;
pub mod values;
pub mod watch;

pub use env_info::{
    analytics_folder, analytics_folder_in, is_analytics_disabled_by_env,
    is_fuchsia_analytics_disabled_set, is_running_in_ci_bot_env, is_test_env, os_description,
    path_for_analytics_file, path_for_analytics_file_in, HomeDir,
};
pub use hub::{ClientId, EntryState, HubState, PushSourceInternal};
pub use session::{Response, Session, SessionState, WatchOutcome};
pub use values::{Status, TimeSample, Update};
pub use watch::{Delivery, FieldState, WatchError, WatchHandler, WatchValue};
