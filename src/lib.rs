//! A sandboxed remote code execution engine: the data model, the sandbox's
//! decisions, the compile cache, the package repository and the worker's job
//! state machine, each stated and proved; the I/O that drives them lives with
//! the callers.

pub mod text;
pub mod models;
pub mod numtext;
pub mod sandbox;
pub mod cache;
pub mod encoding;
pub mod worker;
pub mod error;
pub mod config;
pub mod semver_order;
pub mod package;
pub mod queue;

pub use models::{
    ExecutionLimits, FileRequest, Job, JobRequest, JobResult, StageResult, StageStatus, Testcase,
    TestcaseResult,
};
pub use config::TurboConfig;
pub use error::TurboError;
pub use sandbox::LinuxSandbox;
pub use package::{PackageCache, PackageDefinition, PackageInfo, PackageManager, PackageRepository};
pub use worker::JobRun;
