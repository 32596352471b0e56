//! File requirement checks: a configured path must exist, or be created.

use vstd::prelude::*;

verus! {

/// Schema for File Requirement Checks.
///
/// Verifies that the file exists locally, or can be configured to create
/// the file if it is missing.
#[derive(Debug, Clone, Default)]
pub struct FileRequirement {
    pub path: String,
    pub create_if_not_exists: Option<bool>,
}

/// What to do about a file requirement once existence is known.
#[derive(Debug, Clone, Copy, PartialEq, Eq, Structural)]
pub enum FileAction {
    /// The file is there; nothing to do.
    Nothing,
    /// The file is missing and the configuration asks for it to be made.
    Create,
    /// The file is missing and cannot be created: the run must stop.
    Abort,
}

/// Relies on `std::path::Path::exists`: whether the path currently names
/// a reachable file; the answer depends on the file system.
#[verifier::external_body]
pub fn check_file_exists(path: &str) -> bool {
    std::path::Path::new(path).exists()
}

/// Decides how to handle a file requirement: the requirement is created
/// exactly when it is missing and `create_if_not_exists` was given at
/// all, and aborts when it is missing otherwise.
pub fn file_requirement_action(exists: bool, create_if_not_exists: Option<bool>) -> (r: FileAction)
    ensures
        r == FileAction::Nothing <==> exists,
        r == FileAction::Create <==> (!exists && create_if_not_exists is Some),
        r == FileAction::Abort <==> (!exists && create_if_not_exists is None),
{
    if exists {
        FileAction::Nothing
    } else if create_if_not_exists.is_some() {
        FileAction::Create
    } else {
        FileAction::Abort
    }
}

} // verus!
