//! The target-based configuration schema: an earlier shape of the file,
//! with pre- and post-hooks instead of staged pipelines, still accepted
//! for reading.

use vstd::prelude::*;
use crate::file_requirements::FileRequirement;
use crate::version_requirements::VersionRequirement;

verus! {

/// A target: a named command with optional pre- and post-targets.
#[derive(Debug, Clone, Default)]
pub struct Target {
    pub name: String,
    pub command: Option<String>,
    pub description: Option<String>,
    pub pre_targets: Option<Vec<String>>,
    pub post_targets: Option<Vec<String>>,
    pub file_path: Option<String>,
}

/// The top-level structure of the target-based configuration file.
#[derive(Debug, Default)]
pub struct RoxFile {
    pub version_requirements: Option<Vec<VersionRequirement>>,
    pub file_requirements: Option<Vec<FileRequirement>>,
    pub always_check_requirements: Option<bool>,
    pub targets: Vec<Target>,
    pub additional_files: Option<Vec<String>>,
}

/// This function builds each target and injects related metadata.
pub fn target_builder(target: Target, file_path: String) -> (r: Target)
    ensures
        r.name == target.name,
        r.command == target.command,
        r.description == target.description,
        r.pre_targets == target.pre_targets,
        r.post_targets == target.post_targets,
        r.file_path == Some(file_path),
{
    Target {
        name: target.name,
        command: target.command,
        description: target.description,
        pre_targets: target.pre_targets,
        post_targets: target.post_targets,
        file_path: Some(file_path),
    }
}

} // verus!
