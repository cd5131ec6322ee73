//! Processing stages of the governance pipeline.

use vstd::prelude::*;
use crate::governance::error::GitGovernanceError;
use crate::governance::types::CommitData;

verus! {

/// One stage that turns an input into an output or fails.
pub trait Stage: Send + Sync {
    type Input;

    type Output;

    fn process(&self, input: Self::Input) -> Result<Self::Output, GitGovernanceError>;
}

/// A stage that passes commits through unchanged.
pub struct NoOpStage;

impl Stage for NoOpStage {
    type Input = CommitData;

    type Output = CommitData;

    fn process(&self, input: CommitData) -> (r: Result<CommitData, GitGovernanceError>)
        ensures
            r matches Ok(c) && c == input,
    {
        Ok(input)
    }
}

} // verus!
