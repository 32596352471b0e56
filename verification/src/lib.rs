//! A declarative task and pipeline runner.
//!
//! A configuration file describes named shell commands ("tasks"), reusable
//! parameterized command templates, and "pipelines" that group tasks into
//! ordered stages.  This crate holds the execution engine: entity validation,
//! template expansion, staged execution of tasks, result aggregation, and
//! result persistence and replay.  Command-line construction, configuration
//! file loading and console rendering live in the surrounding binary.

pub mod ci;
pub mod docs;
pub mod execution;
pub mod file_requirements;
pub mod logs;
pub mod models;
pub mod model_injection;
pub mod ordering;
pub mod roxfile;
pub mod strutil;
pub mod syntax;
pub mod utils;
pub mod version_requirements;
