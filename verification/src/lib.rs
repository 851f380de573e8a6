//! Build-time helper that coordinates how many external compiler processes
//! may run at once.
//!
//! The core of the library is a token-based concurrency coordinator: a pool
//! hands out bounded execution permits ("tokens"), either delegating to an
//! externally inherited jobserver or counting locally, and a cooperative
//! driver ties per-file compile tasks to token lifecycles, harvesting child
//! process results and aggregating partial failures.
//!
//! All operating-system work (spawning children, reading pipes, waiting on
//! the shared jobserver primitive) is performed by the embedding program;
//! this crate makes every decision: when a task may spawn, what each event
//! does to a task's state, and what the aggregate outcome is.

mod command_helpers;
mod config;
mod error;
mod json_compilation_database;
mod track_dependencies;
mod windows_registry;
mod driver;
mod flags;
mod strutil;
mod target;
mod target_specs;
mod pool;

pub use driver::{
    Action, CompileTask, ParallelDriver, RecordedExit, TaskOutcome, TaskState, TokenStep,
};
pub use command_helpers::{
    CargoOutput, Object, command_add_output_file, objects_from_files, warning_line,
};
pub use config::{Config, compile_library};
pub use error::{Error, ErrorKind};
pub use flags::RustcCodegenFlags;
pub use json_compilation_database::CompileCommand;
pub use track_dependencies::{WriteFileStatus, is_any_input_newer_then_output, write_file_if_changed};
pub use windows_registry::{Tool, find_tool};
pub use target::TargetInfo;
pub use target_specs::{Cfgs, PreLinkArgs, RustcTargetSpecs, TargetSpec};
pub use strutil::{
    join_strings, parse_u32, split_char, split_once_char, str_contains, str_ends_with, str_eq,
    str_starts_with, u32_to_decimal, whitespace_tokens,
};
pub use pool::{
    AcquireDecision, AcquireStep, ActiveJobTokenServer, HelperPoll, InProcessJobServer,
    InheritedJobServer, JobToken, JobTokenServer, JobserverAuth, ReleaseDisposition, TokenReturn,
    TryAcquire, parallelism_from_hint, parse_jobserver_auth,
};
