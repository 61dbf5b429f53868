//! Launch arguments
use vstd::prelude::*;
use crate::positional_args::{dispatch_positional_args, spec_dispatch, ArgsError};
use crate::text::opt_view;

verus! {

/// Launch arguments
pub struct Args {
    /// Print help information
    pub help: bool,
    /// Print the version
    pub version: bool,
    /// Print the path to the prefs file, create it if it doesn't exist
    pub prefs: bool,
    /// Run without user interface: just run the default job on change
    pub headless: bool,
    /// Start in summary mode
    pub summary: bool,
    /// Start in full mode (not summary)
    pub no_summary: bool,
    /// Start with lines wrapped
    pub wrap: bool,
    /// Start with lines not wrapped
    pub no_wrap: bool,
    /// Start with gui vertical order reversed
    pub reverse: bool,
    /// Start with standard gui order
    pub no_reverse: bool,
    /// Display a help line
    pub help_line: bool,
    /// Do not display a help line
    pub no_help_line: bool,
    /// List available jobs
    pub list_jobs: bool,
    pub completion_list_jobs: bool,
    /// Don't access the network
    pub offline: bool,
    /// Create a bacon.toml file, ready to be customized
    pub init: bool,
    /// Listen on a unix socket for commands
    pub listen: bool,
    /// Don't listen on a unix socket for commands
    pub no_listen: bool,
    /// Send a command on bacon's unix socket
    pub send: Option<String>,
    /// Job to launch: `check`, `clippy`, custom ones...
    pub job: Option<String>,
    /// Ignore features of both the package and the bacon job
    pub no_default_features: bool,
    /// Comma separated list of features
    /// (if the job defines some, they're merged)
    pub features: Option<String>,
    /// Activate all available features
    pub all_features: bool,
    /// Export locations in `.bacon-locations` file
    pub export_locations: bool,
    /// Don't export locations
    pub no_export_locations: bool,
    /// Path to watch (overriding what's normally computed from the project's
    /// type, bacon.toml file, etc.)
    pub watch: Option<String>,
    /// Project to run jobs on, and use as working directory
    pub project: Option<String>,
    /// Configuration passed as a TOML string
    pub config_toml: Option<String>,
    /// Generate the JSON Schema for bacon configuration files
    pub generate_config_schema: bool,
    /// What to do: either a job, or a path, or both
    pub args: Vec<String>,
    /// Arguments given to the job
    pub additional_job_args: Vec<String>,
}

impl Args {
    /// positional arguments in bacon command are a convenience
    /// allowing to skip writing `-j`, `-p`, or both.
    /// To be used, they must be copied to the `job` or
    /// `project` values.
    pub fn fix(&mut self) -> (r: Result<(), ArgsError>)
        ensures
            final(self).args@.len() == 0,
            match spec_dispatch(old(self).args@.map_values(|s: String| s@), opt_view(old(self).job), opt_view(old(self).project)) {
                Ok((j, p)) => r is Ok && opt_view(final(self).job) == j && opt_view(final(self).project) == p,
                Err(None) => r == Err::<(), ArgsError>(ArgsError::TooManyArguments)
                    && final(self).job == old(self).job && final(self).project == old(self).project,
                Err(Some(a)) => (match r {
                    Err(ArgsError::UnexpectedArgument(s)) => s@ == a,
                    _ => false,
                }) && final(self).job == old(self).job && final(self).project == old(self).project,
            },
    {
        let mut args: Vec<String> = Vec::new();
        let mut job: Option<String> = None;
        let mut project: Option<String> = None;
        std::mem::swap(&mut args, &mut self.args);
        std::mem::swap(&mut job, &mut self.job);
        std::mem::swap(&mut project, &mut self.project);
        let r = dispatch_positional_args(&mut args, &mut job, &mut project);
        self.args = args;
        self.job = job;
        self.project = project;
        r
    }
}

} // verus!
