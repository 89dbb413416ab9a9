//! `run`: fetch, triage and digest, one after the other.

use vstd::prelude::*;

verus! {

/// The steps of a run.
#[derive(Debug, Clone, Copy, PartialEq, Eq, Structural)]
pub enum Step {
    Fetch,
    Triage,
    Digest,
    /// The run is over and every step that matters succeeded.
    Done,
    /// The run was given up.
    Failed,
}

/// The step after one that succeeded or failed. A failed triage (a missing key, a
/// passing error) does not keep the digest from showing what is scored already.
pub fn next_step(step: Step, succeeded: bool) -> (r: Step)
    ensures
        r == (match step {
            Step::Fetch => if succeeded {
                Step::Triage
            } else {
                Step::Failed
            },
            Step::Triage => Step::Digest,
            Step::Digest => if succeeded {
                Step::Done
            } else {
                Step::Failed
            },
            Step::Done => Step::Done,
            Step::Failed => Step::Failed,
        }),
{
    match step {
        Step::Fetch => if succeeded {
            Step::Triage
        } else {
            Step::Failed
        },
        Step::Triage => Step::Digest,
        Step::Digest => if succeeded {
            Step::Done
        } else {
            Step::Failed
        },
        Step::Done => Step::Done,
        Step::Failed => Step::Failed,
    }
}

} // verus!
