//! How a step that was handed out to be performed came back.

use vstd::prelude::*;

verus! {

/// The outcome of performing one step of a run on the file system.
#[derive(Clone, Copy, Debug, PartialEq, Eq, Structural)]
pub enum StepOutcome {
    Succeeded,
    Failed,
}

} // verus!
