use vstd::prelude::*;

pub mod action;
pub mod analysis;
pub mod args;
pub mod auto_refresh;
pub mod burp;
pub mod cli;
pub mod command_output;
pub mod command_result;
pub mod conf;
pub mod context_nature;
pub mod display_settings;
pub mod examples;
pub mod mission;
pub mod exec;
pub mod positional_args;
pub mod report;
pub mod text;
pub mod tline;
pub mod tty;
pub mod watches;

verus! {
} // verus!
