use bacon::action::Action;
use bacon::auto_refresh::AutoRefresh;
use bacon::exec::on_change_strategy::OnChangeStrategy;
use bacon::mission::{mission_step, DoAfterMission, MissionAction, MissionEvent, MissionState};
use bacon::watches::watches_of;

fn state(auto_refresh: AutoRefresh, computing: bool, changes: usize) -> MissionState {
    MissionState {
        auto_refresh,
        computing,
        changes_since_last_job_start: changes,
        on_change_strategy: OnChangeStrategy::WaitThenRestart,
        failures: vec!["tests::a".to_string()],
    }
}

#[test]
fn file_change_reruns_idle_job() {
    let (s, a) = mission_step(state(AutoRefresh::Enabled, false, 0), MissionEvent::FileChange { in_grace_period: false });
    assert!(matches!(a, MissionAction::Restart { clear: false }));
    assert!(s.computing);
    assert_eq!(s.changes_since_last_job_start, 0);
}

#[test]
fn file_change_while_computing_waits() {
    let (s, a) = mission_step(state(AutoRefresh::Enabled, true, 0), MissionEvent::FileChange { in_grace_period: false });
    assert!(matches!(a, MissionAction::Nothing));
    assert_eq!(s.changes_since_last_job_start, 1);
    let (s, a) = mission_step(state(AutoRefresh::Paused, false, 0), MissionEvent::FileChange { in_grace_period: false });
    assert!(matches!(a, MissionAction::Nothing));
    assert_eq!(s.changes_since_last_job_start, 1);
    let (s, a) = mission_step(state(AutoRefresh::Enabled, false, 0), MissionEvent::FileChange { in_grace_period: true });
    assert!(matches!(a, MissionAction::Nothing));
    assert_eq!(s.changes_since_last_job_start, 0);
}

#[test]
fn unpause_reruns_when_changed() {
    let (s, a) = mission_step(state(AutoRefresh::Paused, false, 2), MissionEvent::Key(Action::TogglePause));
    assert!(matches!(a, MissionAction::Restart { clear: true }));
    assert_eq!(s.auto_refresh, AutoRefresh::Enabled);
    let (s, a) = mission_step(state(AutoRefresh::Enabled, false, 2), MissionEvent::Key(Action::TogglePause));
    assert!(matches!(a, MissionAction::Nothing));
    assert_eq!(s.auto_refresh, AutoRefresh::Paused);
}

#[test]
fn mission_endings() {
    let (_, a) = mission_step(state(AutoRefresh::Enabled, false, 0), MissionEvent::Key(Action::ScopeToFailures));
    match a {
        MissionAction::End(DoAfterMission::ScopedJob(tests)) => assert_eq!(tests, vec!["tests::a".to_string()]),
        _ => panic!("expected a scoped job"),
    }
    let (_, a) = mission_step(state(AutoRefresh::Enabled, false, 0), MissionEvent::Key(Action::Job("test".to_string())));
    assert!(matches!(a, MissionAction::End(DoAfterMission::Job(ref j)) if j == "test"));
    let (_, a) = mission_step(state(AutoRefresh::Enabled, false, 0), MissionEvent::ConfigChange);
    assert!(matches!(a, MissionAction::End(DoAfterMission::ReloadConfig)));
    let (_, a) = mission_step(state(AutoRefresh::Enabled, false, 0), MissionEvent::NothingToGoBackTo { or_quit: false });
    assert!(matches!(a, MissionAction::End(DoAfterMission::PreviousJob)));
    let (_, a) = mission_step(state(AutoRefresh::Enabled, false, 0), MissionEvent::Key(Action::Help));
    assert!(matches!(a, MissionAction::View(Action::Help)));
}

#[test]
fn watches_of_job_or_settings() {
    let w = watches_of(Some(vec!["src".to_string(), "assets".to_string()]), vec!["other".to_string()], true);
    assert_eq!(w, vec!["src", "assets", "Cargo.toml", "tests", "benches", "examples", "build.rs"]);
    let w = watches_of(None, vec!["other".to_string()], false);
    assert_eq!(w, vec!["other"]);
}
