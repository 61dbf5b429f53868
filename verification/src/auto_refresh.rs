use vstd::prelude::*;

verus! {

#[derive(Debug, Clone, Copy, PartialEq, Eq, Structural)]
pub enum AutoRefresh {
    /// Don't rerun the job on file changes.
    Paused,
    /// Run the job on file changes.
    Enabled,
}

/// The auto-refresh is enabled exactly when it's not paused
pub proof fn lemma_enabled_iff_not_paused(a: AutoRefresh)
    ensures
        (a == AutoRefresh::Enabled) == !(a == AutoRefresh::Paused),
{
}

impl AutoRefresh {
    pub fn is_enabled(self) -> (r: bool)
        ensures
            r == (self == AutoRefresh::Enabled),
    {
        matches!(self, AutoRefresh::Enabled)
    }

    pub fn is_paused(self) -> (r: bool)
        ensures
            r == (self == AutoRefresh::Paused),
    {
        matches!(self, AutoRefresh::Paused)
    }
}

} // verus!
