//! Test-oracle classification: mapping a test command's exit status to a
//! verdict about the revision the command ran against.
//!
//! The command itself is spawned by the embedding program; this module
//! holds the classification rule, which is the only part of the oracle
//! with decision content.

use vstd::prelude::*;

verus! {

/// The binary classification of one revision by the test oracle.
#[derive(Clone, Copy, Debug, PartialEq, Eq, Structural)]
pub enum Verdict {
    /// The test command succeeded: the defect is absent at this revision.
    Good,
    /// The test command failed: the defect is present at this revision.
    Bad,
}

/// What an exit status means: zero is good, every nonzero status is bad.
pub open spec fn spec_verdict_of_exit(code: i32) -> Verdict {
    if code == 0 {
        Verdict::Good
    } else {
        Verdict::Bad
    }
}

/// Classify a revision from the exit status of the test command run
/// against it.  Exit status 0 maps to `Good`; every other status maps
/// to `Bad`.  The command's output is never inspected.
pub fn verdict_of_exit(code: i32) -> (v: Verdict)
    ensures
        v == spec_verdict_of_exit(code),
{
    if code == 0 {
        Verdict::Good
    } else {
        Verdict::Bad
    }
}

} // verus!
