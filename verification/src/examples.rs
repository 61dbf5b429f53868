use vstd::prelude::*;

verus! {

/// A bacon launch example to display in the --help message
pub struct Example {
    pub title: &'static str,
    pub cmd: &'static str,
}

} // verus!
