//! The settings used in the application: made from default, then overridden
//! (in order) by the configuration items (the general preferences, the
//! workspace and package `bacon.toml` files, the configurations given by
//! the environment) and by the launch arguments.
use vstd::prelude::*;
use crate::analysis::analyzer::AnalyzerRef;
use crate::cli::args::Args;
use crate::conf::keybindings::{default_bindings, vim_bindings, KeyBindings};
use crate::exec::on_change_strategy::OnChangeStrategy;
use crate::exec::period::Period;
use crate::mission::clone_strings;
use crate::report::strings_view;
use crate::text::{occurs_at, opt_view, str_eq, to_chars, occurs_at_exec};
use crate::analysis::patterns::{is_word, is_word_char};

verus! {

/// A job: a command to run, with what to watch and how to analyze its output
pub struct Job {
    pub command: Vec<String>,
    pub watch: Option<Vec<String>>,
    pub default_watch: Option<bool>,
    pub on_change_strategy: Option<OnChangeStrategy>,
    pub analyzer: Option<AnalyzerRef>,
}

#[verifier::ext_equal]
pub struct JobView {
    pub command: Seq<Seq<char>>,
    pub watch: Option<Seq<Seq<char>>>,
    pub default_watch: Option<bool>,
    pub on_change_strategy: Option<OnChangeStrategy>,
    pub analyzer: Option<AnalyzerRef>,
}

pub open spec fn opt_strings_view(o: Option<Vec<String>>) -> Option<Seq<Seq<char>>> {
    match o {
        Some(v) => Some(strings_view(v@)),
        None => None,
    }
}

impl View for Job {
    type V = JobView;

    open spec fn view(&self) -> JobView {
        JobView {
            command: strings_view(self.command@),
            watch: opt_strings_view(self.watch),
            default_watch: self.default_watch,
            on_change_strategy: self.on_change_strategy,
            analyzer: self.analyzer,
        }
    }
}

fn clone_opt_strings(o: &Option<Vec<String>>) -> (r: Option<Vec<String>>)
    ensures
        opt_strings_view(r) == opt_strings_view(*o),
{
    match o {
        Some(v) => Some(clone_strings(v)),
        None => None,
    }
}

fn clone_job(j: &Job) -> (r: Job)
    ensures
        r@ == j@,
{
    Job {
        command: clone_strings(&j.command),
        watch: clone_opt_strings(&j.watch),
        default_watch: j.default_watch,
        on_change_strategy: j.on_change_strategy,
        analyzer: j.analyzer,
    }
}

pub open spec fn jobs_view(s: Seq<(String, Job)>) -> Seq<(Seq<char>, JobView)> {
    s.map_values(|p: (String, Job)| (p.0@, p.1@))
}

/// The job of the given name: the last one defined with it
pub open spec fn job_of(jobs: Seq<(Seq<char>, JobView)>, name: Seq<char>) -> Option<JobView>
    decreases jobs.len(),
{
    if jobs.len() == 0 {
        None
    } else if jobs.last().0 == name {
        Some(jobs.last().1)
    } else {
        job_of(jobs.drop_last(), name)
    }
}

/// A configuration item, as found in the preferences or in a `bacon.toml`
/// file: each value which is given overrides the settings
pub struct Config {
    pub additional_alias_args: Option<Vec<String>>,
    /// the name of the default job (or "alias:" and the name of an alias)
    pub default_job: Option<String>,
    pub default_watch: Option<bool>,
    pub grace_period: Option<Period>,
    pub help_line: Option<bool>,
    /// patterns of lines to ignore
    pub ignored_lines: Option<Vec<String>>,
    /// the jobs, by name
    pub jobs: Vec<(String, Job)>,
    pub keybindings: Option<KeyBindings>,
    pub on_change_strategy: Option<OnChangeStrategy>,
    pub reverse: Option<bool>,
    pub show_changes_count: Option<bool>,
    pub summary: Option<bool>,
    pub vim_keys: Option<bool>,
    pub watch: Option<Vec<String>>,
    pub wrap: Option<bool>,
}

#[verifier::ext_equal]
pub struct ConfigView {
    pub additional_alias_args: Option<Seq<Seq<char>>>,
    pub default_job: Option<Seq<char>>,
    pub grace_period: Option<Period>,
    pub help_line: Option<bool>,
    pub ignored_lines: Option<Seq<Seq<char>>>,
    pub jobs: Seq<(Seq<char>, JobView)>,
    pub keybindings: Option<Seq<(Seq<char>, crate::action::ActionView)>>,
    pub on_change_strategy: Option<OnChangeStrategy>,
    pub reverse: Option<bool>,
    pub show_changes_count: Option<bool>,
    pub summary: Option<bool>,
    pub vim_keys: Option<bool>,
    pub wrap: Option<bool>,
}

impl View for Config {
    type V = ConfigView;

    open spec fn view(&self) -> ConfigView {
        ConfigView {
            additional_alias_args: opt_strings_view(self.additional_alias_args),
            default_job: opt_view(self.default_job),
            grace_period: self.grace_period,
            help_line: self.help_line,
            ignored_lines: opt_strings_view(self.ignored_lines),
            jobs: jobs_view(self.jobs@),
            keybindings: match self.keybindings {
                Some(k) => Some(k@),
                None => None,
            },
            on_change_strategy: self.on_change_strategy,
            reverse: self.reverse,
            show_changes_count: self.show_changes_count,
            summary: self.summary,
            vim_keys: self.vim_keys,
            wrap: self.wrap,
        }
    }
}

/// A configuration item giving no value
pub open spec fn empty_config() -> ConfigView {
    ConfigView {
        additional_alias_args: None,
        default_job: None,
        grace_period: None,
        help_line: None,
        ignored_lines: None,
        jobs: Seq::empty(),
        keybindings: None,
        on_change_strategy: None,
        reverse: None,
        show_changes_count: None,
        summary: None,
        vim_keys: None,
        wrap: None,
    }
}

/// A job running a command, with nothing else given
pub open spec fn command_job(command: Seq<Seq<char>>) -> JobView {
    JobView { command, watch: None, default_watch: None, on_change_strategy: None, analyzer: None }
}

/// The configuration of a package by default: the jobs "check" and
/// "clippy", running cargo with colors, "check" being the default one
pub open spec fn default_package_config() -> ConfigView {
    ConfigView {
        default_job: Some("check"@),
        jobs: seq![
            ("check"@, command_job(seq!["cargo"@, "check"@, "--color"@, "always"@])),
            ("clippy"@, command_job(seq!["cargo"@, "clippy"@, "--color"@, "always"@])),
        ],
        ..empty_config()
    }
}

/// The settings made of the default package configuration can be used
pub proof fn lemma_default_package_config_ok()
    ensures
        settings_ok(config_applied(default_settings(), default_package_config())),
{
    reveal_strlit("check");
    reveal_strlit("clippy");
    reveal_strlit("alias:");
    let s = config_applied(default_settings(), default_package_config());
    assert(s.jobs =~= default_package_config().jobs);
    assert(s.jobs.last().0 == "clippy"@);
    assert("clippy"@[1] != "check"@[1]);
    assert(s.jobs.last().0 != "check"@);
    assert(s.jobs.drop_last() =~= seq![s.jobs[0]]);
    assert(job_of(s.jobs.drop_last(), "check"@) is Some);
    assert(job_of(s.jobs, s.default_job) is Some);
    assert(s.jobs.drop_last().last().0 == "check"@);
    assert(!occurs_at(s.default_job, "alias:"@, 0)) by {
        assert(s.default_job[0] != "alias:"@[0]);
    }
}

/// Why a configuration item can't be used
#[derive(Debug, PartialEq, Eq)]
pub enum ConfigError {
    IllegalJobName(String),
    EmptyCommand(String),
}

pub enum ConfigErrorView {
    IllegalJobName(Seq<char>),
    EmptyCommand(Seq<char>),
}

pub open spec fn config_error_view(e: ConfigError) -> ConfigErrorView {
    match e {
        ConfigError::IllegalJobName(n) => ConfigErrorView::IllegalJobName(n@),
        ConfigError::EmptyCommand(n) => ConfigErrorView::EmptyCommand(n@),
    }
}

/// A job name is made of word characters and hyphens
pub open spec fn job_name_ok(n: Seq<char>) -> bool {
    n.len() > 0 && forall|i: int| 0 <= i < n.len() ==> #[trigger] is_word(n[i]) || n[i] == '-'
}

/// The first problem of the jobs, in their order: an illegal name, or an
/// empty command
pub open spec fn jobs_error(jobs: Seq<(Seq<char>, JobView)>) -> Option<ConfigErrorView>
    decreases jobs.len(),
{
    if jobs.len() == 0 {
        None
    } else {
        match jobs_error(jobs.drop_last()) {
            Some(e) => Some(e),
            None => if !job_name_ok(jobs.last().0) {
                Some(ConfigErrorView::IllegalJobName(jobs.last().0))
            } else if jobs.last().1.command.len() == 0 {
                Some(ConfigErrorView::EmptyCommand(jobs.last().0))
            } else {
                None
            },
        }
    }
}

fn job_name_ok_exec(n: &str) -> (r: bool)
    ensures
        r == job_name_ok(n@),
{
    let c = to_chars(n);
    if c.len() == 0 {
        return false;
    }
    let mut i: usize = 0;
    while i < c.len()
        invariant
            i <= c@.len(),
            c@ == n@,
            forall|k: int| 0 <= k < i ==> #[trigger] is_word(c@[k]) || c@[k] == '-',
        decreases c@.len() - i,
    {
        if !is_word_char(c[i]) && c[i] != '-' {
            return false;
        }
        i += 1;
    }
    true
}

/// Check the jobs of a configuration item: each name must be made of word
/// characters and hyphens, and each command must not be empty; the first
/// problem is the error
pub fn check_config(config: &Config) -> (r: Result<(), ConfigError>)
    ensures
        match r {
            Ok(()) => jobs_error(config@.jobs) is None,
            Err(e) => jobs_error(config@.jobs) == Some(config_error_view(e)),
        },
{
    let mut i: usize = 0;
    while i < config.jobs.len()
        invariant
            i <= config.jobs@.len(),
            jobs_error(jobs_view(config.jobs@.subrange(0, i as int))) is None,
        decreases config.jobs@.len() - i,
    {
        let ghost sub = jobs_view(config.jobs@.subrange(0, i + 1));
        assert(sub.drop_last() =~= jobs_view(config.jobs@.subrange(0, i as int)));
        assert(sub.last() == (config.jobs@[i as int].0@, config.jobs@[i as int].1@));
        let name = &config.jobs[i].0;
        assert(jobs_view(config.jobs@).subrange(0, i + 1) =~= sub);
        if !job_name_ok_exec(name.as_str()) {
            proof {
                assert(jobs_error(sub) == Some(ConfigErrorView::IllegalJobName(name@)));
                lemma_jobs_error_prefix(jobs_view(config.jobs@), i + 1);
            }
            return Err(ConfigError::IllegalJobName(name.clone()));
        }
        if config.jobs[i].1.command.len() == 0 {
            proof {
                assert(jobs_error(sub) == Some(ConfigErrorView::EmptyCommand(name@)));
                lemma_jobs_error_prefix(jobs_view(config.jobs@), i + 1);
            }
            return Err(ConfigError::EmptyCommand(name.clone()));
        }
        i += 1;
    }
    assert(config.jobs@.subrange(0, i as int) =~= config.jobs@);
    Ok(())
}

/// An error of the first jobs is the error of all of them
pub proof fn lemma_jobs_error_prefix(jobs: Seq<(Seq<char>, JobView)>, n: int)
    requires
        0 <= n <= jobs.len(),
    ensures
        jobs_error(jobs.subrange(0, n)) is Some ==> jobs_error(jobs) == jobs_error(jobs.subrange(0, n)),
    decreases jobs.len() - n,
{
    if n < jobs.len() {
        lemma_jobs_error_prefix(jobs, n + 1);
        assert(jobs.subrange(0, n + 1).drop_last() =~= jobs.subrange(0, n));
    } else {
        assert(jobs.subrange(0, n) =~= jobs);
    }
}

impl Config {
    /// A configuration item giving no value
    pub fn empty() -> (r: Self)
        ensures
            r@ == empty_config(),
    {
        let r = Config {
            additional_alias_args: None,
            default_job: None,
            default_watch: None,
            grace_period: None,
            help_line: None,
            ignored_lines: None,
            jobs: Vec::new(),
            keybindings: None,
            on_change_strategy: None,
            reverse: None,
            show_changes_count: None,
            summary: None,
            vim_keys: None,
            watch: None,
            wrap: None,
        };
        assert(jobs_view(r.jobs@) =~= Seq::<(Seq<char>, JobView)>::empty());
        r
    }

    /// The configuration of a package by default
    pub fn default_package_config() -> (r: Self)
        ensures
            r@ == default_package_config(),
    {
        let mut r = Config::empty();
        r.default_job = Some(String::from_str("check"));
        let check = Job {
            command: vec![String::from_str("cargo"), String::from_str("check"), String::from_str("--color"), String::from_str("always")],
            watch: None,
            default_watch: None,
            on_change_strategy: None,
            analyzer: None,
        };
        let clippy = Job {
            command: vec![String::from_str("cargo"), String::from_str("clippy"), String::from_str("--color"), String::from_str("always")],
            watch: None,
            default_watch: None,
            on_change_strategy: None,
            analyzer: None,
        };
        assert(strings_view(check.command@) =~= seq!["cargo"@, "check"@, "--color"@, "always"@]);
        assert(strings_view(clippy.command@) =~= seq!["cargo"@, "clippy"@, "--color"@, "always"@]);
        assert(check@ == command_job(seq!["cargo"@, "check"@, "--color"@, "always"@]));
        assert(clippy@ == command_job(seq!["cargo"@, "clippy"@, "--color"@, "always"@]));
        let ghost j0 = r.jobs@;
        assert(jobs_view(j0).len() == j0.len());
        r.jobs.push((String::from_str("check"), check));
        r.jobs.push((String::from_str("clippy"), clippy));
        assert(j0.len() == 0);
        assert(r.jobs@.len() == 2);
        assert(jobs_view(r.jobs@)[0] == ("check"@, command_job(seq!["cargo"@, "check"@, "--color"@, "always"@])));
        assert(jobs_view(r.jobs@)[1] == ("clippy"@, command_job(seq!["cargo"@, "clippy"@, "--color"@, "always"@])));
        assert(jobs_view(r.jobs@) =~= default_package_config().jobs);
        r
    }
}

/// The settings used in the application
pub struct Settings {
    /// the job given by the launch arguments
    pub arg_job: Option<String>,
    pub additional_job_args: Vec<String>,
    pub additional_alias_args: Option<Vec<String>>,
    pub summary: bool,
    pub wrap: bool,
    pub reverse: bool,
    pub help_line: bool,
    pub no_default_features: bool,
    pub all_features: bool,
    /// comma separated list of features
    pub features: Option<String>,
    pub keybindings: KeyBindings,
    /// the jobs, by name; the last one of a name counts
    pub jobs: Vec<(String, Job)>,
    /// the name of the default job (or "alias:" and the name of an alias)
    pub default_job: String,
    pub export_locations: Option<bool>,
    pub show_changes_count: bool,
    pub on_change_strategy: Option<OnChangeStrategy>,
    pub ignored_lines: Option<Vec<String>>,
    pub grace_period: Period,
}

#[verifier::ext_equal]
pub struct SettingsView {
    pub arg_job: Option<Seq<char>>,
    pub additional_job_args: Seq<Seq<char>>,
    pub additional_alias_args: Option<Seq<Seq<char>>>,
    pub summary: bool,
    pub wrap: bool,
    pub reverse: bool,
    pub help_line: bool,
    pub no_default_features: bool,
    pub all_features: bool,
    pub features: Option<Seq<char>>,
    pub keybindings: Seq<(Seq<char>, crate::action::ActionView)>,
    pub jobs: Seq<(Seq<char>, JobView)>,
    pub default_job: Seq<char>,
    pub export_locations: Option<bool>,
    pub show_changes_count: bool,
    pub on_change_strategy: Option<OnChangeStrategy>,
    pub ignored_lines: Option<Seq<Seq<char>>>,
    pub grace_period: Period,
}

impl View for Settings {
    type V = SettingsView;

    open spec fn view(&self) -> SettingsView {
        SettingsView {
            arg_job: opt_view(self.arg_job),
            additional_job_args: strings_view(self.additional_job_args@),
            additional_alias_args: opt_strings_view(self.additional_alias_args),
            summary: self.summary,
            wrap: self.wrap,
            reverse: self.reverse,
            help_line: self.help_line,
            no_default_features: self.no_default_features,
            all_features: self.all_features,
            features: opt_view(self.features),
            keybindings: self.keybindings@,
            jobs: jobs_view(self.jobs@),
            default_job: self.default_job@,
            export_locations: self.export_locations,
            show_changes_count: self.show_changes_count,
            on_change_strategy: self.on_change_strategy,
            ignored_lines: opt_strings_view(self.ignored_lines),
            grace_period: self.grace_period,
        }
    }
}

/// Why the settings can't be used
#[derive(Debug, PartialEq, Eq)]
pub enum SettingsError {
    NoJob,
    /// the default job, given by its name, isn't among the jobs
    DefaultJobNotFound(String),
}

/// The settings before any configuration
pub open spec fn default_settings() -> SettingsView {
    SettingsView {
        arg_job: None,
        additional_job_args: Seq::empty(),
        additional_alias_args: None,
        summary: false,
        wrap: true,
        reverse: false,
        help_line: true,
        no_default_features: false,
        all_features: false,
        features: None,
        keybindings: default_bindings(),
        jobs: Seq::empty(),
        default_job: "check"@,
        export_locations: None,
        show_changes_count: false,
        on_change_strategy: None,
        ignored_lines: None,
        grace_period: Period { secs: 0, nanos: 5_000_000 },
    }
}

pub open spec fn or_else<T>(o: Option<T>, d: T) -> T {
    match o {
        Some(x) => x,
        None => d,
    }
}

/// The settings once the configuration item is applied: each value it
/// gives overrides the setting, the vim keys (when asked) then its key
/// bindings are added to the bindings, and its jobs to the jobs
pub open spec fn config_applied(s: SettingsView, c: ConfigView) -> SettingsView {
    let k1 = if c.vim_keys == Some(true) {
        s.keybindings + vim_bindings()
    } else {
        s.keybindings
    };
    SettingsView {
        summary: or_else(c.summary, s.summary),
        wrap: or_else(c.wrap, s.wrap),
        reverse: or_else(c.reverse, s.reverse),
        help_line: or_else(c.help_line, s.help_line),
        keybindings: match c.keybindings {
            Some(k) => k1 + k,
            None => k1,
        },
        additional_alias_args: if c.additional_alias_args is Some {
            c.additional_alias_args
        } else {
            s.additional_alias_args
        },
        jobs: s.jobs + c.jobs,
        default_job: or_else(c.default_job, s.default_job),
        show_changes_count: or_else(c.show_changes_count, s.show_changes_count),
        on_change_strategy: if c.on_change_strategy is Some {
            c.on_change_strategy
        } else {
            s.on_change_strategy
        },
        ignored_lines: if c.ignored_lines is Some {
            c.ignored_lines
        } else {
            s.ignored_lines
        },
        grace_period: or_else(c.grace_period, s.grace_period),
        ..s
    }
}

/// The settings once the launch arguments are applied: an argument given
/// overrides the setting; when both a flag and its negation are given, the
/// flag wins for the summary, the wrapping and the reversal, the negation
/// for the help line and the export of locations
pub open spec fn args_applied(s: SettingsView, a: Args) -> SettingsView {
    SettingsView {
        arg_job: if a.job is Some {
            opt_view(a.job)
        } else {
            s.arg_job
        },
        summary: if a.summary {
            true
        } else if a.no_summary {
            false
        } else {
            s.summary
        },
        wrap: if a.wrap {
            true
        } else if a.no_wrap {
            false
        } else {
            s.wrap
        },
        reverse: if a.reverse {
            true
        } else if a.no_reverse {
            false
        } else {
            s.reverse
        },
        help_line: if a.no_help_line {
            false
        } else if a.help_line {
            true
        } else {
            s.help_line
        },
        export_locations: if a.no_export_locations {
            Some(false)
        } else if a.export_locations {
            Some(true)
        } else {
            s.export_locations
        },
        no_default_features: s.no_default_features || a.no_default_features,
        all_features: s.all_features || a.all_features,
        features: if a.features is Some {
            opt_view(a.features)
        } else {
            s.features
        },
        additional_job_args: strings_view(a.additional_job_args@),
        ..s
    }
}

/// Whether the default job, when given by its name and not by an alias,
/// is a job
pub open spec fn default_job_ok(s: SettingsView) -> bool {
    occurs_at(s.default_job, "alias:"@, 0) || job_of(s.jobs, s.default_job) is Some
}

/// Whether the settings can be used: there's a job, and the default job
/// is one of them
pub open spec fn settings_ok(s: SettingsView) -> bool {
    s.jobs.len() > 0 && default_job_ok(s)
}

/// The job of a name, in jobs defined in two rounds: the one of the second
/// round when there's one there, else the one of the first round
pub proof fn lemma_job_of_concat(a: Seq<(Seq<char>, JobView)>, b: Seq<(Seq<char>, JobView)>, name: Seq<char>)
    ensures
        job_of(a + b, name) == if job_of(b, name) is Some {
            job_of(b, name)
        } else {
            job_of(a, name)
        },
    decreases b.len(),
{
    if b.len() == 0 {
        assert(a + b =~= a);
    } else {
        assert((a + b).drop_last() =~= a + b.drop_last());
        lemma_job_of_concat(a, b.drop_last(), name);
    }
}

/// A job defined by a configuration item applied later replaces the job of
/// the same name: the jobs of the bacon.toml files override those of the
/// preferences
pub proof fn lemma_later_job_wins(s: SettingsView, c: ConfigView, name: Seq<char>)
    ensures
        job_of(config_applied(s, c).jobs, name) == if job_of(c.jobs, name) is Some {
            job_of(c.jobs, name)
        } else {
            job_of(s.jobs, name)
        },
{
    lemma_job_of_concat(s.jobs, c.jobs, name);
}

/// The launch arguments override the configuration: a display setting the
/// arguments give doesn't depend on the configuration items applied before
pub proof fn lemma_args_override_config(s: SettingsView, c: ConfigView, a: Args)
    ensures
        (a.summary || a.no_summary) ==> args_applied(config_applied(s, c), a).summary == a.summary,
        (a.wrap || a.no_wrap) ==> args_applied(config_applied(s, c), a).wrap == a.wrap,
        (a.reverse || a.no_reverse) ==> args_applied(config_applied(s, c), a).reverse == a.reverse,
        (a.help_line || a.no_help_line) ==> args_applied(config_applied(s, c), a).help_line == !a.no_help_line,
        a.job is Some ==> args_applied(config_applied(s, c), a).arg_job == opt_view(a.job),
{
}

fn clone_opt_string(s: &Option<String>) -> (r: Option<String>)
    ensures
        opt_view(r) == opt_view(*s),
{
    match s {
        Some(s) => Some(s.clone()),
        None => None,
    }
}

fn override_bool(field: &mut bool, o: Option<bool>)
    ensures
        *final(field) == or_else(o, *old(field)),
{
    if let Some(b) = o {
        *field = b;
    }
}

fn override_string(field: &mut String, o: &Option<String>)
    ensures
        final(field)@ == or_else(opt_view(*o), old(field)@),
{
    if let Some(v) = o {
        *field = v.clone();
    }
}

fn override_opt_strings(field: &mut Option<Vec<String>>, o: &Option<Vec<String>>)
    ensures
        opt_strings_view(*final(field)) == if o is Some {
            opt_strings_view(*o)
        } else {
            opt_strings_view(*old(field))
        },
{
    if o.is_some() {
        *field = clone_opt_strings(o);
    }
}

fn set_if(field: &mut bool, cond: bool, value: bool)
    ensures
        *final(field) == if cond {
            value
        } else {
            *old(field)
        },
{
    if cond {
        *field = value;
    }
}

fn set_opt_if(field: &mut Option<bool>, cond: bool, value: bool)
    ensures
        *final(field) == if cond {
            Some(value)
        } else {
            *old(field)
        },
{
    if cond {
        *field = Some(value);
    }
}

impl Settings {
    /// The settings before any configuration
    pub fn new() -> (r: Self)
        ensures
            r@ == default_settings(),
    {
        let r = Settings {
            arg_job: None,
            additional_job_args: Vec::new(),
            additional_alias_args: None,
            summary: false,
            wrap: true,
            reverse: false,
            help_line: true,
            no_default_features: false,
            all_features: false,
            features: None,
            keybindings: KeyBindings::default_bindings(),
            jobs: Vec::new(),
            default_job: String::from_str("check"),
            export_locations: None,
            show_changes_count: false,
            on_change_strategy: None,
            ignored_lines: None,
            grace_period: Period { secs: 0, nanos: 5_000_000 },
        };
        assert(strings_view(r.additional_job_args@) =~= Seq::<Seq<char>>::empty());
        assert(jobs_view(r.jobs@) =~= Seq::<(Seq<char>, JobView)>::empty());
        r
    }

    /// Apply one of the configuration items, overriding defaults and
    /// previously applied configuration items
    pub fn apply_config(&mut self, config: &Config)
        ensures
            final(self)@ == config_applied(old(self)@, config@),
    {
        let ghost s0 = self@;
        self.apply_config_flags(config);
        self.apply_config_keys(config);
        self.add_jobs(&config.jobs);
        assert(self@ =~= config_applied(s0, config@));
    }

    #[verifier::rlimit(100)]
    fn apply_config_flags(&mut self, config: &Config)
        ensures
            final(self)@ == (SettingsView {
                keybindings: old(self)@.keybindings,
                jobs: old(self)@.jobs,
                ..config_applied(old(self)@, config@)
            }),
    {
        override_bool(&mut self.summary, config.summary);
        override_bool(&mut self.wrap, config.wrap);
        override_bool(&mut self.reverse, config.reverse);
        override_bool(&mut self.help_line, config.help_line);
        override_opt_strings(&mut self.additional_alias_args, &config.additional_alias_args);
        override_string(&mut self.default_job, &config.default_job);
        override_bool(&mut self.show_changes_count, config.show_changes_count);
        if config.on_change_strategy.is_some() {
            self.on_change_strategy = config.on_change_strategy;
        }
        override_opt_strings(&mut self.ignored_lines, &config.ignored_lines);
        if let Some(p) = config.grace_period {
            self.grace_period = p;
        }
    }

    fn apply_config_keys(&mut self, config: &Config)
        ensures
            final(self)@ == (SettingsView {
                keybindings: config_applied(old(self)@, config@).keybindings,
                ..old(self)@
            }),
    {
        if config.vim_keys == Some(true) {
            self.keybindings.add_vim_keys();
        }
        if let Some(keybindings) = &config.keybindings {
            self.keybindings.add_all(keybindings);
        }
    }

    fn add_jobs(&mut self, jobs: &Vec<(String, Job)>)
        ensures
            final(self)@ == (SettingsView { jobs: old(self)@.jobs + jobs_view(jobs@), ..old(self)@ }),
    {
        let ghost jobs_before = jobs_view(self.jobs@);
        let mut i: usize = 0;
        while i < jobs.len()
            invariant
                i <= jobs@.len(),
                self@ == (SettingsView { jobs: jobs_before + jobs_view(jobs@.subrange(0, i as int)), ..old(self)@ }),
            decreases jobs@.len() - i,
        {
            let ghost before = self.jobs@;
            let name = jobs[i].0.clone();
            let job = clone_job(&jobs[i].1);
            self.jobs.push((name, job));
            assert(jobs_view(jobs@.subrange(0, i + 1)) =~= jobs_view(jobs@.subrange(0, i as int)).push(
                (jobs@[i as int].0@, jobs@[i as int].1@),
            ));
            assert(jobs_view(self.jobs@) =~= jobs_view(before).push((jobs@[i as int].0@, jobs@[i as int].1@)));
            i += 1;
        }
        assert(jobs@.subrange(0, i as int) =~= jobs@);
    }

    /// Apply the launch arguments, which override the configuration
    pub fn apply_args(&mut self, args: &Args)
        ensures
            final(self)@ == args_applied(old(self)@, *args),
    {
        let ghost s0 = self@;
        self.apply_display_args(args);
        self.apply_job_args(args);
        assert(self@ =~= args_applied(s0, *args));
    }

    #[verifier::rlimit(60)]
    fn apply_display_args(&mut self, args: &Args)
        ensures
            final(self)@ == (SettingsView {
                summary: args_applied(old(self)@, *args).summary,
                wrap: args_applied(old(self)@, *args).wrap,
                reverse: args_applied(old(self)@, *args).reverse,
                help_line: args_applied(old(self)@, *args).help_line,
                export_locations: args_applied(old(self)@, *args).export_locations,
                ..old(self)@
            }),
    {
        set_if(&mut self.summary, args.no_summary, false);
        set_if(&mut self.summary, args.summary, true);
        set_if(&mut self.wrap, args.no_wrap, false);
        set_if(&mut self.wrap, args.wrap, true);
        set_if(&mut self.reverse, args.no_reverse, false);
        set_if(&mut self.help_line, args.help_line, true);
        set_if(&mut self.help_line, args.no_help_line, false);
        set_opt_if(&mut self.export_locations, args.export_locations, true);
        set_opt_if(&mut self.export_locations, args.no_export_locations, false);
        set_if(&mut self.reverse, args.reverse, true);
    }

    #[verifier::rlimit(60)]
    fn apply_job_args(&mut self, args: &Args)
        ensures
            final(self)@ == (SettingsView {
                arg_job: args_applied(old(self)@, *args).arg_job,
                no_default_features: args_applied(old(self)@, *args).no_default_features,
                all_features: args_applied(old(self)@, *args).all_features,
                features: args_applied(old(self)@, *args).features,
                additional_job_args: args_applied(old(self)@, *args).additional_job_args,
                ..old(self)@
            }),
    {
        if args.job.is_some() {
            self.arg_job = clone_opt_string(&args.job);
        }
        set_if(&mut self.no_default_features, args.no_default_features, true);
        set_if(&mut self.all_features, args.all_features, true);
        if args.features.is_some() {
            self.features = clone_opt_string(&args.features);
        }
        self.additional_job_args = clone_strings(&args.additional_job_args);
    }

    /// The job of the given name, if any
    pub fn job(&self, name: &str) -> (r: Option<&Job>)
        ensures
            match r {
                Some(j) => job_of(self@.jobs, name@) == Some(j@),
                None => job_of(self@.jobs, name@) is None,
            },
    {
        let mut i = self.jobs.len();
        assert(self.jobs@.subrange(0, i as int) =~= self.jobs@);
        while i > 0
            invariant
                i <= self.jobs@.len(),
                job_of(self@.jobs, name@) == job_of(jobs_view(self.jobs@.subrange(0, i as int)), name@),
            decreases i,
        {
            let ghost sub = jobs_view(self.jobs@.subrange(0, i as int));
            assert(sub.drop_last() =~= jobs_view(self.jobs@.subrange(0, i - 1)));
            assert(sub.last() == (self.jobs@[i - 1].0@, self.jobs@[i - 1].1@));
            if str_eq(self.jobs[i - 1].0.as_str(), name) {
                return Some(&self.jobs[i - 1].1);
            }
            i -= 1;
        }
        None
    }

    /// Check that the settings can be used: there must be a job, and the
    /// default job, when it's given by its name, must be one of them
    pub fn check(&self) -> (r: Result<(), SettingsError>)
        ensures
            r is Ok <==> settings_ok(self@),
            r matches Err(SettingsError::NoJob) <==> self@.jobs.len() == 0,
            r matches Err(SettingsError::DefaultJobNotFound(name)) ==> name@ == self@.default_job,
    {
        if self.jobs.len() == 0 {
            return Err(SettingsError::NoJob);
        }
        let dj = to_chars(self.default_job.as_str());
        let alias = to_chars("alias:");
        if !occurs_at_exec(dj.as_slice(), alias.as_slice(), 0) && self.job(self.default_job.as_str()).is_none() {
            return Err(SettingsError::DefaultJobNotFound(self.default_job.clone()));
        }
        Ok(())
    }

    /// The name of the job to run first: the one of the launch arguments,
    /// else the default job
    pub fn initial_job(&self) -> (r: String)
        ensures
            r@ == or_else(self@.arg_job, self@.default_job),
    {
        match &self.arg_job {
            Some(j) => j.clone(),
            None => self.default_job.clone(),
        }
    }
}

} // verus!
