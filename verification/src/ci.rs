//! Read-only status of a remote continuous-integration run, as plain data
//! the display collaborator can render.

use vstd::prelude::*;
use crate::strutil::{int_to_string, render_int};

verus! {

/// User-friendly state of one step of a remote workflow run.
#[derive(Debug, Clone, Copy, PartialEq, Eq, Structural)]
pub enum StepStatus {
    Success,
    Failed,
    Skipped,
    InProgress,
    Cancelled,
    Other,
}

impl StepStatus {
    /// The label shown for this state.
    pub fn message(&self) -> (r: String)
        ensures
            *self is Success ==> r@ == "Success"@,
            *self is Failed ==> r@ == "Failed"@,
            *self is Skipped ==> r@ == "Skipped"@,
            *self is InProgress ==> r@ == "In Progress"@,
            *self is Cancelled ==> r@ == "Cancelled"@,
            *self is Other ==> r@ == "Other"@,
    {
        match self {
            StepStatus::Success => "Success".to_owned(),
            StepStatus::Failed => "Failed".to_owned(),
            StepStatus::Skipped => "Skipped".to_owned(),
            StepStatus::InProgress => "In Progress".to_owned(),
            StepStatus::Cancelled => "Cancelled".to_owned(),
            StepStatus::Other => "Other".to_owned(),
        }
    }
}

/// One step of a remote workflow run; the timestamps are epoch seconds.
#[derive(Debug, Clone)]
pub struct RunResult {
    pub name: String,
    pub job: String,
    pub status: StepStatus,
    pub started_at: Option<i64>,
    pub ended_at: Option<i64>,
}

impl RunResult {
    /// The step's elapsed seconds as display text, `N/A` while it still
    /// runs.
    pub fn get_elapsed_time(&self) -> (r: String)
        requires
            self.ended_at matches Some(e) ==> (self.started_at matches Some(st) && i64::MIN <= e
                - st <= i64::MAX),
        ensures
            self.ended_at is None ==> r@ == "N/A"@,
            self.ended_at matches Some(e) ==> (self.started_at matches Some(st) && r@
                == render_int(e - st)),
    {
        match self.ended_at {
            Some(ended_at) => {
                let started_at = self.started_at.unwrap();
                let elapsed_time = ended_at - started_at;
                int_to_string(elapsed_time)
            },
            None => "N/A".to_owned(),
        }
    }
}

} // verus!
