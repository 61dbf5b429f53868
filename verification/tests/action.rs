use bacon::action::{action_string, parse_action, Action, ActionMenuDefinition, ParseActionError, PlaySoundCommand};

fn menu(intro: Option<&str>, actions: Vec<Action>) -> Action {
    Action::OpenMenu(Box::new(ActionMenuDefinition { intro: intro.map(|s| s.to_string()), actions }))
}

fn sound(name: Option<&str>, volume: Option<&str>) -> Action {
    Action::PlaySound(PlaySoundCommand {
        name: name.map(|s| s.to_string()),
        volume: volume.map(|s| s.to_string()),
    })
}

#[test]
fn test_action_string_round_trip() {
    let actions = vec![
        Action::Job("default".to_string()),
        Action::Job("initial".to_string()),
        Action::Job("previous-or-quit".to_string()),
        Action::Job("previous".to_string()),
        Action::Job("run".to_string()),
        Action::Job("nextest(first::test,second_test)".to_string()),
        Action::Job("alias:my-check".to_string()),
        Action::Job("alias:my-test(abc)".to_string()),
        Action::Job("alias:a forbidden name!(abc)".to_string()),
        Action::Help,
        Action::Scroll("scroll-pages(1.5)".to_string()),
        Action::Scroll("scroll-pages(-0.5)".to_string()),
        Action::Scroll("scroll-pages(-2)".to_string()),
        Action::Export("my export".to_string()),
        Action::Back,
        Action::BackOrQuit,
        Action::DismissTop,
        Action::DismissTopItem,
        Action::DismissTopItemType,
        Action::UndismissAll,
        Action::UndismissLocation("src/main.rs:42".to_string()),
        Action::FocusSearch,
        Action::OpenJobsMenu,
        menu(
            Some("This is a menu"),
            vec![
                Action::Job("initial".to_string()),
                Action::Job("previous-or-quit".to_string()),
                Action::Job("run".to_string()),
                Action::Help,
            ],
        ),
        Action::NoOp,
        Action::Pause,
        Action::Quit,
        Action::ReRun,
        Action::ReloadConfig,
        Action::ScopeToFailures,
        Action::Scroll("scroll-pages(-3)".to_string()),
        Action::Scroll("scroll-pages(-0.35)".to_string()),
        Action::Scroll("scroll-pages(1.561)".to_string()),
        Action::Scroll("scroll-to-top".to_string()),
        Action::ToggleBacktrace("1".to_string()),
        Action::ToggleBacktrace("full".to_string()),
        Action::TogglePause,
        Action::ToggleSummary,
        Action::ToggleWrap,
        Action::Unpause,
        Action::Validate,
        Action::NextMatch,
        Action::PreviousMatch,
        sound(None, None),
        sound(None, Some("50")),
        sound(Some("beep-beep"), Some("100")),
        sound(None, Some("0")),
    ];
    for action in actions {
        println!("action: {}", action_string(&action));
        assert_eq!(parse_action(&action_string(&action)), Ok(action));
    }
}

#[test]
fn test_play_sound_parsing_with_space() {
    let strings = [
        "play-sound(name=car-horn,volume=5)",
        "play-sound(name=car-horn, volume=5)",
        "internal:play-sound(name=car-horn, volume=5)",
        "play-sound( name = car-horn , volume = 5 )",
    ];
    for string in &strings {
        let action = parse_action(string).unwrap();
        assert_eq!(action, sound(Some("car-horn"), Some("5")));
    }
}

#[test]
fn action_parsing_cases() {
    assert_eq!(parse_action("internal:back"), Ok(Action::Back));
    assert_eq!(parse_action("no-operation"), Ok(Action::NoOp));
    assert_eq!(parse_action("toggle-backtrace"), Ok(Action::ToggleBacktrace("1".to_string())));
    assert_eq!(parse_action("toggle-backtrace( 2)"), Ok(Action::ToggleBacktrace("2".to_string())));
    // the level takes the spaces after it, as the pattern of the level is greedy
    assert_eq!(
        parse_action("toggle-backtrace( 2 )"),
        Err(ParseActionError::InvalidBacktraceLevel("2 ".to_string()))
    );
    assert_eq!(
        parse_action("toggle-backtrace(3)"),
        Err(ParseActionError::InvalidBacktraceLevel("3".to_string()))
    );
    assert_eq!(
        parse_action("play-sound(pitch=3)"),
        Err(ParseActionError::InvalidPlaySoundParameter("pitch".to_string()))
    );
    assert_eq!(parse_action("bogus"), Err(ParseActionError::UnknownAction("bogus".to_string())));
    assert_eq!(parse_action("export:"), Err(ParseActionError::UnknownAction("export:".to_string())));
    assert_eq!(parse_action("open-job-menu"), Ok(Action::OpenJobsMenu));
    assert_eq!(parse_action("focus_file(src/lib.rs)"), Ok(Action::FocusFile("src/lib.rs".to_string())));
    assert_eq!(
        parse_action("open-menu(actions=[help, ,quit])"),
        Ok(menu(None, vec![Action::Help, Action::Quit]))
    );
    assert_eq!(
        parse_action("open-menu(actions=[help,bogus])"),
        Err(ParseActionError::UnknownAction("bogus".to_string()))
    );
    assert_eq!(action_string(&Action::Export("x".to_string())), "export:x");
}
