use vstd::prelude::*;

verus! {

/// Where a workflow runs: on the platform's own CI, or on an external CI system.
#[derive(Clone, Copy, Debug, PartialEq, Eq, Hash, Structural)]
pub enum WorkflowType {
    Github,
    External,
}

/// State of a workflow run.
#[derive(Clone, Copy, Debug, PartialEq, Eq, Hash, Structural)]
pub enum WorkflowStatus {
    Pending,
    Success,
    Failure,
}

} // verus!
