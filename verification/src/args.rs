//! Launch arguments (version where the positional path goes to `path`)
use vstd::prelude::*;
use crate::positional_args::{dispatch_positional_args, spec_dispatch, ArgsError};
use crate::text::opt_view;

verus! {

/// Launch arguments
pub struct Args {
    /// Print help information
    pub help: bool,
    /// Print the version
    pub version: bool,
    /// Print the path to the prefs file, create it if it doesn't exist
    pub prefs: bool,
    /// Start in summary mode
    pub summary: bool,
    /// Start in full mode (not summary)
    pub no_summary: bool,
    /// Start with lines wrapped
    pub wrap: bool,
    /// Start with lines not wrapped
    pub no_wrap: bool,
    /// Start with gui vertical order reversed
    pub reverse: bool,
    /// Start with standard gui order
    pub no_reverse: bool,
    /// Display a help line
    pub help_line: bool,
    /// Do not display a help line
    pub no_help_line: bool,
    /// List available jobs
    pub list_jobs: bool,
    /// Don't access the network
    pub offline: bool,
    /// Create a bacon.toml file, ready to be customized
    pub init: bool,
    /// Job to launch: `check`, `clippy`, custom ones...
    pub job: Option<String>,
    /// Ignore features of both the package and the bacon job
    pub no_default_features: bool,
    /// Comma separated list of features
    /// (if the job defines some, they're merged)
    pub features: Option<String>,
    /// Activate all available features
    pub all_features: bool,
    /// Export locations in `.bacon-locations` file
    pub export_locations: bool,
    /// Don't export locations
    pub no_export_locations: bool,
    /// Path to watch (must be a rust directory or inside)
    pub path: Option<String>,
    /// What to do: either a job, or a path, or both
    pub args: Vec<String>,
    /// Arguments given to the job
    pub additional_job_args: Vec<String>,
}

impl Args {
    /// positional arguments in bacon command are a convenience
    /// allowing to skip writing `-j`, `-p`, or both.
    /// To be used, they must be copied to the `job` or
    /// `path` values.
    pub fn fix(&mut self) -> (r: Result<(), ArgsError>)
        ensures
            final(self).args@.len() == 0,
            match spec_dispatch(old(self).args@.map_values(|s: String| s@), opt_view(old(self).job), opt_view(old(self).path)) {
                Ok((j, p)) => r is Ok && opt_view(final(self).job) == j && opt_view(final(self).path) == p,
                Err(None) => r == Err::<(), ArgsError>(ArgsError::TooManyArguments)
                    && final(self).job == old(self).job && final(self).path == old(self).path,
                Err(Some(a)) => (match r {
                    Err(ArgsError::UnexpectedArgument(s)) => s@ == a,
                    _ => false,
                }) && final(self).job == old(self).job && final(self).path == old(self).path,
            },
    {
        let mut args: Vec<String> = Vec::new();
        let mut job: Option<String> = None;
        let mut path: Option<String> = None;
        std::mem::swap(&mut args, &mut self.args);
        std::mem::swap(&mut job, &mut self.job);
        std::mem::swap(&mut path, &mut self.path);
        let r = dispatch_positional_args(&mut args, &mut job, &mut path);
        self.args = args;
        self.job = job;
        self.path = path;
        r
    }
}

} // verus!
