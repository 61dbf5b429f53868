//! The decisions taken while a job runs: what to do on a file change, on
//! the end of the computation, on an action of the user.
use vstd::prelude::*;
use crate::action::{Action, ActionView};
use crate::auto_refresh::AutoRefresh;
use crate::exec::on_change_strategy::OnChangeStrategy;
use crate::report::strings_view;

verus! {

/// What the mission knows to take its decisions
pub struct MissionState {
    pub auto_refresh: AutoRefresh,
    /// whether the job is running
    pub computing: bool,
    /// the number of file changes since the start of the running, or last,
    /// computation
    pub changes_since_last_job_start: usize,
    pub on_change_strategy: OnChangeStrategy,
    /// the keys of the failed tests of the last report
    pub failures: Vec<String>,
}

pub struct MissionStateView {
    pub auto_refresh: AutoRefresh,
    pub computing: bool,
    pub changes_since_last_job_start: nat,
    pub on_change_strategy: OnChangeStrategy,
    pub failures: Seq<Seq<char>>,
}

impl View for MissionState {
    type V = MissionStateView;

    open spec fn view(&self) -> MissionStateView {
        MissionStateView {
            auto_refresh: self.auto_refresh,
            computing: self.computing,
            changes_since_last_job_start: self.changes_since_last_job_start as nat,
            on_change_strategy: self.on_change_strategy,
            failures: strings_view(self.failures@),
        }
    }
}

/// What happens while a mission runs
pub enum MissionEvent {
    /// a periodic tick, or a resize of the terminal
    Tick,
    /// a watched file changed
    FileChange { in_grace_period: bool },
    /// a configuration file changed
    ConfigChange,
    /// the computation ended, giving the action that its result calls for
    TaskEnd(Option<Action>),
    /// the computation couldn't go on
    TaskError,
    /// the view had nothing to go back to
    NothingToGoBackTo { or_quit: bool },
    /// the user asked for an action
    Key(Action),
}

pub enum MissionEventView {
    Tick,
    FileChange { in_grace_period: bool },
    ConfigChange,
    TaskEnd(Option<ActionView>),
    TaskError,
    NothingToGoBackTo { or_quit: bool },
    Key(ActionView),
}

impl View for MissionEvent {
    type V = MissionEventView;

    open spec fn view(&self) -> MissionEventView {
        match self {
            MissionEvent::Tick => MissionEventView::Tick,
            MissionEvent::FileChange { in_grace_period } => MissionEventView::FileChange {
                in_grace_period: *in_grace_period,
            },
            MissionEvent::ConfigChange => MissionEventView::ConfigChange,
            MissionEvent::TaskEnd(a) => MissionEventView::TaskEnd(
                match a {
                    Some(a) => Some(a@),
                    None => None,
                },
            ),
            MissionEvent::TaskError => MissionEventView::TaskError,
            MissionEvent::NothingToGoBackTo { or_quit } => MissionEventView::NothingToGoBackTo {
                or_quit: *or_quit,
            },
            MissionEvent::Key(a) => MissionEventView::Key(a@),
        }
    }
}

/// What to do once the mission ends
pub enum DoAfterMission {
    /// run the job given by this reference
    Job(String),
    PreviousJob,
    PreviousJobOrQuit,
    /// run the same job again, restricted to these tests
    ScopedJob(Vec<String>),
    ReloadConfig,
    Quit,
}

pub enum DoAfterMissionView {
    Job(Seq<char>),
    PreviousJob,
    PreviousJobOrQuit,
    ScopedJob(Seq<Seq<char>>),
    ReloadConfig,
    Quit,
}

/// What the application does after an event, before drawing
pub enum MissionAction {
    Nothing,
    /// stop the running computation, clear the view when asked, and start
    /// a new computation
    Restart { clear: bool },
    /// change the backtrace level to this one, then restart the
    /// computation
    ToggleBacktrace(String),
    /// run the named export
    Export(String),
    /// go back in the view, telling when there's nothing to go back to
    Back { or_quit: bool },
    /// apply the action to the view
    View(Action),
    /// end the mission
    End(DoAfterMission),
}

pub enum MissionActionView {
    Nothing,
    Restart { clear: bool },
    ToggleBacktrace(Seq<char>),
    Export(Seq<char>),
    Back { or_quit: bool },
    View(ActionView),
    End(DoAfterMissionView),
}

impl View for MissionAction {
    type V = MissionActionView;

    open spec fn view(&self) -> MissionActionView {
        match self {
            MissionAction::Nothing => MissionActionView::Nothing,
            MissionAction::Restart { clear } => MissionActionView::Restart { clear: *clear },
            MissionAction::ToggleBacktrace(l) => MissionActionView::ToggleBacktrace(l@),
            MissionAction::Export(n) => MissionActionView::Export(n@),
            MissionAction::Back { or_quit } => MissionActionView::Back { or_quit: *or_quit },
            MissionAction::View(a) => MissionActionView::View(a@),
            MissionAction::End(d) => MissionActionView::End(
                match d {
                    DoAfterMission::Job(j) => DoAfterMissionView::Job(j@),
                    DoAfterMission::PreviousJob => DoAfterMissionView::PreviousJob,
                    DoAfterMission::PreviousJobOrQuit => DoAfterMissionView::PreviousJobOrQuit,
                    DoAfterMission::ScopedJob(t) => DoAfterMissionView::ScopedJob(strings_view(t@)),
                    DoAfterMission::ReloadConfig => DoAfterMissionView::ReloadConfig,
                    DoAfterMission::Quit => DoAfterMissionView::Quit,
                },
            ),
        }
    }
}

/// The state once a computation starts
pub open spec fn started(s: MissionStateView) -> MissionStateView {
    MissionStateView { computing: true, changes_since_last_job_start: 0, ..s }
}

/// The decision on an action, asked by the user or by the end of the
/// computation
pub open spec fn spec_apply_action(s: MissionStateView, a: ActionView) -> (
    MissionStateView,
    MissionActionView,
) {
    match a {
        ActionView::Export(n) => (s, MissionActionView::Export(n)),
        ActionView::Back => (s, MissionActionView::Back { or_quit: false }),
        ActionView::BackOrQuit => (s, MissionActionView::Back { or_quit: true }),
        ActionView::Pause => (
            MissionStateView { auto_refresh: AutoRefresh::Paused, ..s },
            MissionActionView::Nothing,
        ),
        ActionView::Quit => (s, MissionActionView::End(DoAfterMissionView::Quit)),
        ActionView::ReRun => (started(s), MissionActionView::Restart { clear: false }),
        ActionView::Refresh => (started(s), MissionActionView::Restart { clear: true }),
        ActionView::ReloadConfig => (s, MissionActionView::End(DoAfterMissionView::ReloadConfig)),
        ActionView::ScopeToFailures => if s.failures.len() > 0 {
            (s, MissionActionView::End(DoAfterMissionView::ScopedJob(s.failures)))
        } else {
            (s, MissionActionView::Nothing)
        },
        ActionView::ToggleBacktrace(l) => (started(s), MissionActionView::ToggleBacktrace(l)),
        ActionView::TogglePause => if s.auto_refresh == AutoRefresh::Enabled {
            (MissionStateView { auto_refresh: AutoRefresh::Paused, ..s }, MissionActionView::Nothing)
        } else if s.changes_since_last_job_start > 0 {
            (
                MissionStateView { auto_refresh: AutoRefresh::Enabled, ..started(s) },
                MissionActionView::Restart { clear: true },
            )
        } else {
            (MissionStateView { auto_refresh: AutoRefresh::Enabled, ..s }, MissionActionView::Nothing)
        },
        ActionView::Unpause => if s.changes_since_last_job_start > 0 {
            (
                MissionStateView { auto_refresh: AutoRefresh::Enabled, ..started(s) },
                MissionActionView::Restart { clear: true },
            )
        } else {
            (MissionStateView { auto_refresh: AutoRefresh::Enabled, ..s }, MissionActionView::Nothing)
        },
        ActionView::Job(j) => (s, MissionActionView::End(DoAfterMissionView::Job(j))),
        ActionView::NoOp => (s, MissionActionView::Nothing),
        _ => (s, MissionActionView::View(a)),
    }
}

/// The decision on an event
pub open spec fn spec_mission_step(s: MissionStateView, e: MissionEventView) -> (
    MissionStateView,
    MissionActionView,
) {
    match e {
        MissionEventView::Tick => (s, MissionActionView::Nothing),
        MissionEventView::FileChange { in_grace_period } => if in_grace_period {
            (s, MissionActionView::Nothing)
        } else {
            let s1 = MissionStateView {
                changes_since_last_job_start: s.changes_since_last_job_start + 1,
                ..s
            };
            if s1.auto_refresh == AutoRefresh::Enabled && (!s1.computing || s1.on_change_strategy
                == OnChangeStrategy::KillThenRestart) {
                spec_apply_action(s1, ActionView::ReRun)
            } else {
                (s1, MissionActionView::Nothing)
            }
        },
        MissionEventView::ConfigChange => spec_apply_action(s, ActionView::ReloadConfig),
        MissionEventView::TaskEnd(a) => {
            let s1 = MissionStateView { computing: false, ..s };
            match a {
                Some(a) => spec_apply_action(s1, a),
                None => (s1, MissionActionView::Nothing),
            }
        },
        MissionEventView::TaskError => (
            MissionStateView { computing: false, ..s },
            MissionActionView::End(DoAfterMissionView::Quit),
        ),
        MissionEventView::NothingToGoBackTo { or_quit } => (
            s,
            MissionActionView::End(
                if or_quit {
                    DoAfterMissionView::PreviousJobOrQuit
                } else {
                    DoAfterMissionView::PreviousJob
                },
            ),
        ),
        MissionEventView::Key(a) => spec_apply_action(s, a),
    }
}

/// The keys which end the mission: quitting ends it with `Quit`,
/// reloading the configuration with `ReloadConfig`, a job with that job;
/// the state is kept
pub proof fn lemma_ending_actions(s: MissionStateView, j: Seq<char>)
    ensures
        spec_mission_step(s, MissionEventView::Key(ActionView::Quit)) == (s, MissionActionView::End(
            DoAfterMissionView::Quit,
        )),
        spec_mission_step(s, MissionEventView::Key(ActionView::ReloadConfig)) == (
            s,
            MissionActionView::End(DoAfterMissionView::ReloadConfig),
        ),
        spec_mission_step(s, MissionEventView::Key(ActionView::Job(j))) == (s, MissionActionView::End(
            DoAfterMissionView::Job(j),
        )),
        spec_mission_step(s, MissionEventView::ConfigChange) == (s, MissionActionView::End(
            DoAfterMissionView::ReloadConfig,
        )),
        spec_mission_step(s, MissionEventView::TaskError).1 == MissionActionView::End(DoAfterMissionView::Quit),
        !spec_mission_step(s, MissionEventView::TaskError).0.computing,
        spec_mission_step(s, MissionEventView::NothingToGoBackTo { or_quit: false }) == (
            s,
            MissionActionView::End(DoAfterMissionView::PreviousJob),
        ),
        spec_mission_step(s, MissionEventView::NothingToGoBackTo { or_quit: true }) == (
            s,
            MissionActionView::End(DoAfterMissionView::PreviousJobOrQuit),
        ),
        s.failures.len() > 0 ==> spec_mission_step(s, MissionEventView::Key(ActionView::ScopeToFailures)) == (
            s,
            MissionActionView::End(DoAfterMissionView::ScopedJob(s.failures)),
        ),
        s.failures.len() == 0 ==> spec_mission_step(s, MissionEventView::Key(ActionView::ScopeToFailures)) == (
            s,
            MissionActionView::Nothing,
        ),
{
}

/// The keys which run the job again: rerun, refresh (which clears first),
/// and a change of the backtrace level; the job then runs, with no change
/// counted since its start, and the rest of the state is kept
pub proof fn lemma_rerunning_actions(s: MissionStateView, level: Seq<char>)
    ensures
        spec_mission_step(s, MissionEventView::Key(ActionView::ReRun)) == (
            MissionStateView { computing: true, changes_since_last_job_start: 0, ..s },
            MissionActionView::Restart { clear: false },
        ),
        spec_mission_step(s, MissionEventView::Key(ActionView::Refresh)) == (
            MissionStateView { computing: true, changes_since_last_job_start: 0, ..s },
            MissionActionView::Restart { clear: true },
        ),
        spec_mission_step(s, MissionEventView::Key(ActionView::ToggleBacktrace(level))) == (
            MissionStateView { computing: true, changes_since_last_job_start: 0, ..s },
            MissionActionView::ToggleBacktrace(level),
        ),
{
}

/// Pausing and unpausing: pause stops the auto-refresh; unpausing enables
/// it, and runs the job again, clearing first, when files changed since
/// its start; toggling goes from one to the other
pub proof fn lemma_pause_actions(s: MissionStateView)
    ensures
        spec_mission_step(s, MissionEventView::Key(ActionView::Pause)) == (
            MissionStateView { auto_refresh: AutoRefresh::Paused, ..s },
            MissionActionView::Nothing,
        ),
        s.changes_since_last_job_start > 0 ==> spec_mission_step(s, MissionEventView::Key(ActionView::Unpause)) == (
            MissionStateView {
                auto_refresh: AutoRefresh::Enabled,
                computing: true,
                changes_since_last_job_start: 0,
                ..s
            },
            MissionActionView::Restart { clear: true },
        ),
        s.changes_since_last_job_start == 0 ==> spec_mission_step(s, MissionEventView::Key(ActionView::Unpause)) == (
            MissionStateView { auto_refresh: AutoRefresh::Enabled, ..s },
            MissionActionView::Nothing,
        ),
        s.auto_refresh == AutoRefresh::Enabled ==> spec_mission_step(
            s,
            MissionEventView::Key(ActionView::TogglePause),
        ) == (MissionStateView { auto_refresh: AutoRefresh::Paused, ..s }, MissionActionView::Nothing),
        s.auto_refresh == AutoRefresh::Paused ==> spec_mission_step(
            s,
            MissionEventView::Key(ActionView::TogglePause),
        ) == spec_mission_step(s, MissionEventView::Key(ActionView::Unpause)),
{
}

/// The other keys are handed over: export with its name, back (telling
/// whether to quit when there's nothing to go back to), the view actions
/// as they are, and no operation does nothing; none changes the state
pub proof fn lemma_handed_actions(s: MissionStateView, name: Seq<char>)
    ensures
        spec_mission_step(s, MissionEventView::Key(ActionView::Export(name))) == (s, MissionActionView::Export(name)),
        spec_mission_step(s, MissionEventView::Key(ActionView::Back)) == (s, MissionActionView::Back { or_quit: false }),
        spec_mission_step(s, MissionEventView::Key(ActionView::BackOrQuit)) == (s, MissionActionView::Back { or_quit: true }),
        spec_mission_step(s, MissionEventView::Key(ActionView::NoOp)) == (s, MissionActionView::Nothing),
        spec_mission_step(s, MissionEventView::Key(ActionView::Help)) == (s, MissionActionView::View(ActionView::Help)),
        spec_mission_step(s, MissionEventView::Key(ActionView::ToggleSummary)) == (s, MissionActionView::View(ActionView::ToggleSummary)),
        spec_mission_step(s, MissionEventView::Key(ActionView::ToggleWrap)) == (s, MissionActionView::View(ActionView::ToggleWrap)),
        spec_mission_step(s, MissionEventView::Tick) == (s, MissionActionView::Nothing),
{
}

/// The end of the computation stops it, then applies the action it calls
/// for, if any
pub proof fn lemma_task_end(s: MissionStateView, a: ActionView)
    ensures
        spec_mission_step(s, MissionEventView::TaskEnd(None)) == (
            MissionStateView { computing: false, ..s },
            MissionActionView::Nothing,
        ),
        spec_mission_step(s, MissionEventView::TaskEnd(Some(a))) == spec_mission_step(
            MissionStateView { computing: false, ..s },
            MissionEventView::Key(a),
        ),
{
}

/// A file change out of the grace period is counted; it runs the job again
/// when the auto-refresh is enabled and the job isn't running, or when the
/// strategy is to kill it; else nothing starts
pub proof fn lemma_file_change(s: MissionStateView)
    ensures
        ({
            let r = spec_mission_step(s, MissionEventView::FileChange { in_grace_period: false });
            if s.auto_refresh == AutoRefresh::Enabled && (!s.computing || s.on_change_strategy
                == OnChangeStrategy::KillThenRestart) {
                r == (
                    MissionStateView { computing: true, changes_since_last_job_start: 0, ..s },
                    MissionActionView::Restart { clear: false },
                )
            } else {
                r == (
                    MissionStateView {
                        changes_since_last_job_start: s.changes_since_last_job_start + 1,
                        ..s
                    },
                    MissionActionView::Nothing,
                )
            }
        }),
{
}

/// While the auto-refresh is paused, file changes are counted and start
/// nothing
pub proof fn lemma_paused_ignores_changes(s: MissionStateView, in_grace_period: bool)
    requires
        s.auto_refresh == AutoRefresh::Paused,
    ensures
        spec_mission_step(s, MissionEventView::FileChange { in_grace_period }).1 == MissionActionView::Nothing,
        spec_mission_step(s, MissionEventView::FileChange { in_grace_period }).0.auto_refresh == AutoRefresh::Paused,
{
}

/// A file change during the grace period is ignored
pub proof fn lemma_grace_period_ignored(s: MissionStateView)
    ensures
        spec_mission_step(s, MissionEventView::FileChange { in_grace_period: true }) == (s, MissionActionView::Nothing),
{
}

/// With the auto-refresh enabled, a change while the job doesn't run
/// starts it again, and the count of changes starts over
pub proof fn lemma_change_reruns_idle_job(s: MissionStateView)
    requires
        s.auto_refresh == AutoRefresh::Enabled,
        !s.computing,
    ensures
        spec_mission_step(s, MissionEventView::FileChange { in_grace_period: false }) == (
            started(s),
            MissionActionView::Restart { clear: false },
        ),
{
}

pub(crate) fn clone_strings(v: &Vec<String>) -> (r: Vec<String>)
    ensures
        strings_view(r@) == strings_view(v@),
{
    let mut r: Vec<String> = Vec::new();
    let mut i: usize = 0;
    while i < v.len()
        invariant
            i <= v@.len(),
            strings_view(r@) == strings_view(v@.subrange(0, i as int)),
        decreases v@.len() - i,
    {
        let ghost before = r@;
        let x = v[i].clone();
        r.push(x);
        assert(v@.subrange(0, i + 1) =~= v@.subrange(0, i as int).push(v@[i as int]));
        assert(r@ =~= before.push(x));
        assert(strings_view(r@) =~= strings_view(before).push(x@));
        assert(strings_view(v@.subrange(0, i + 1)) =~= strings_view(v@.subrange(0, i as int)).push(v@[i as int]@));
        i += 1;
    }
    assert(v@.subrange(0, i as int) =~= v@);
    r
}

fn start(s: &mut MissionState)
    ensures
        final(s)@ == started(old(s)@),
{
    s.computing = true;
    s.changes_since_last_job_start = 0;
}

fn apply_action(s: MissionState, a: Action) -> (r: (MissionState, MissionAction))
    ensures
        (r.0@, r.1@) == spec_apply_action(s@, a@),
{
    let mut s = s;
    match a {
        Action::Export(n) => (s, MissionAction::Export(n)),
        Action::Back => (s, MissionAction::Back { or_quit: false }),
        Action::BackOrQuit => (s, MissionAction::Back { or_quit: true }),
        Action::Pause => {
            s.auto_refresh = AutoRefresh::Paused;
            (s, MissionAction::Nothing)
        },
        Action::Quit => (s, MissionAction::End(DoAfterMission::Quit)),
        Action::ReRun => {
            start(&mut s);
            (s, MissionAction::Restart { clear: false })
        },
        Action::Refresh => {
            start(&mut s);
            (s, MissionAction::Restart { clear: true })
        },
        Action::ReloadConfig => (s, MissionAction::End(DoAfterMission::ReloadConfig)),
        Action::ScopeToFailures => {
            if s.failures.len() > 0 {
                let tests = clone_strings(&s.failures);
                (s, MissionAction::End(DoAfterMission::ScopedJob(tests)))
            } else {
                (s, MissionAction::Nothing)
            }
        },
        Action::ToggleBacktrace(l) => {
            start(&mut s);
            (s, MissionAction::ToggleBacktrace(l))
        },
        Action::TogglePause => {
            if s.auto_refresh.is_enabled() {
                s.auto_refresh = AutoRefresh::Paused;
                (s, MissionAction::Nothing)
            } else if s.changes_since_last_job_start > 0 {
                start(&mut s);
                s.auto_refresh = AutoRefresh::Enabled;
                (s, MissionAction::Restart { clear: true })
            } else {
                s.auto_refresh = AutoRefresh::Enabled;
                (s, MissionAction::Nothing)
            }
        },
        Action::Unpause => {
            if s.changes_since_last_job_start > 0 {
                start(&mut s);
                s.auto_refresh = AutoRefresh::Enabled;
                (s, MissionAction::Restart { clear: true })
            } else {
                s.auto_refresh = AutoRefresh::Enabled;
                (s, MissionAction::Nothing)
            }
        },
        Action::Job(j) => (s, MissionAction::End(DoAfterMission::Job(j))),
        Action::NoOp => (s, MissionAction::Nothing),
        a => (s, MissionAction::View(a)),
    }
}

/// The decision on an event of a running mission: the new state, and what
/// the application must do. A file change out of the grace period counts
/// as a change and, when the auto-refresh is enabled, reruns the job if
/// it's not running, or if the strategy is to kill it; the end of the
/// computation, or an action of the user, is applied (see
/// [`spec_apply_action`]).
pub fn mission_step(s: MissionState, e: MissionEvent) -> (r: (MissionState, MissionAction))
    requires
        e is FileChange ==> s.changes_since_last_job_start < usize::MAX,
    ensures
        (r.0@, r.1@) == spec_mission_step(s@, e@),
{
    let mut s = s;
    match e {
        MissionEvent::Tick => (s, MissionAction::Nothing),
        MissionEvent::FileChange { in_grace_period } => {
            if in_grace_period {
                (s, MissionAction::Nothing)
            } else {
                s.changes_since_last_job_start = s.changes_since_last_job_start + 1;
                if s.auto_refresh.is_enabled() && (!s.computing || s.on_change_strategy
                    == OnChangeStrategy::KillThenRestart) {
                    apply_action(s, Action::ReRun)
                } else {
                    (s, MissionAction::Nothing)
                }
            }
        },
        MissionEvent::ConfigChange => apply_action(s, Action::ReloadConfig),
        MissionEvent::TaskEnd(a) => {
            s.computing = false;
            match a {
                Some(a) => apply_action(s, a),
                None => (s, MissionAction::Nothing),
            }
        },
        MissionEvent::TaskError => {
            s.computing = false;
            (s, MissionAction::End(DoAfterMission::Quit))
        },
        MissionEvent::NothingToGoBackTo { or_quit } => {
            if or_quit {
                (s, MissionAction::End(DoAfterMission::PreviousJobOrQuit))
            } else {
                (s, MissionAction::End(DoAfterMission::PreviousJob))
            }
        },
        MissionEvent::Key(a) => apply_action(s, a),
    }
}

} // verus!
