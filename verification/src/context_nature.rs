use vstd::prelude::*;

verus! {

/// The kind of project/context, as it impacts computing features,
/// files to watch, etc.
#[derive(Debug, Clone, Copy, PartialEq, Eq, Structural)]
pub enum ContextNature {
    Cargo,
    Other,
}

} // verus!
