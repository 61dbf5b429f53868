use vstd::prelude::*;

verus! {

/// Strategy to apply when changes are detected while a job is running.
#[derive(Debug, Clone, Copy, PartialEq, Eq, Structural)]
pub enum OnChangeStrategy {
    /// Stop the running job immediately before starting a new one.
    KillThenRestart,
    /// Let the running job finish before starting again.
    WaitThenRestart,
}

} // verus!
