//! Analyzers for python tools
pub mod pytest;
pub mod ruff;
pub mod unittest;
