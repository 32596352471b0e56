//! The task-based configuration schema with symbol substitutions: the
//! shape that preceded templates, still accepted for reading.

use vstd::prelude::*;
use crate::file_requirements::FileRequirement;
use crate::version_requirements::VersionRequirement;

verus! {

/// A task with optional hooks and symbol substitutions.
#[derive(Debug, Clone, Default)]
pub struct Task {
    pub name: String,
    pub command: Option<String>,
    pub description: Option<String>,
    pub pre_tasks: Option<Vec<String>>,
    pub post_tasks: Option<Vec<String>>,
    pub file_path: Option<String>,
    pub symbols: Option<Vec<String>>,
    pub substitutions: Option<Vec<Substitution>>,
    pub hide: Option<bool>,
}

/// The name and set of values to inject into the command, based on the
/// `symbols` field.
#[derive(Debug, Clone)]
pub struct Substitution {
    pub name: String,
    pub values: Vec<String>,
    pub description: Option<String>,
}

/// The top-level structure of this configuration shape.
#[derive(Debug, Default)]
pub struct RoxFile {
    pub version_requirements: Option<Vec<VersionRequirement>>,
    pub file_requirements: Option<Vec<FileRequirement>>,
    pub tasks: Vec<Task>,
    pub additional_files: Option<Vec<String>>,
}

/// Rebuilds each Task with injected metadata.
pub fn task_builder(task: Task, file_path: String) -> (r: Task)
    ensures
        r.name == task.name,
        r.command == task.command,
        r.description == task.description,
        r.pre_tasks == task.pre_tasks,
        r.post_tasks == task.post_tasks,
        r.file_path == Some(file_path),
        r.symbols == task.symbols,
        r.substitutions == task.substitutions,
        r.hide == task.hide,
{
    Task {
        name: task.name,
        command: task.command,
        description: task.description,
        pre_tasks: task.pre_tasks,
        post_tasks: task.post_tasks,
        file_path: Some(file_path),
        symbols: task.symbols,
        substitutions: task.substitutions,
        hide: task.hide,
    }
}

} // verus!
