use bacon::analysis::line_type::{BadgeBackground, BadgeOutput, Kind, LineType, TitleBadge};
use bacon::burp;
use bacon::cli::args::Args;
use bacon::command_output::{CommandOutput, CommandOutputLine, CommandStream};
use bacon::command_result::CommandResult;
use bacon::display_settings::{DisplaySettings, Prefs};
use bacon::exec::period::{Period, PeriodError};
use bacon::positional_args::ArgsError;
use bacon::report::{Line, Report};
use bacon::tline::TLine;

fn args(positional: &[&str], job: Option<&str>, project: Option<&str>) -> Args {
    Args {
        help: false,
        version: false,
        prefs: false,
        headless: false,
        summary: false,
        no_summary: false,
        wrap: false,
        no_wrap: false,
        reverse: false,
        no_reverse: false,
        help_line: false,
        no_help_line: false,
        list_jobs: false,
        completion_list_jobs: false,
        offline: false,
        init: false,
        listen: false,
        no_listen: false,
        send: None,
        job: job.map(|s| s.to_string()),
        no_default_features: false,
        features: None,
        all_features: false,
        export_locations: false,
        no_export_locations: false,
        watch: None,
        project: project.map(|s| s.to_string()),
        config_toml: None,
        generate_config_schema: false,
        args: positional.iter().map(|s| s.to_string()).collect(),
        additional_job_args: Vec::new(),
    }
}

#[test]
fn positional_path() {
    let mut a = args(&["../broot"], None, None);
    assert!(a.fix().is_ok());
    assert_eq!(a.project, Some("../broot".to_string()));
    assert_eq!(a.job, None);
    assert!(a.args.is_empty());
    // fixing again changes nothing
    assert!(a.fix().is_ok());
    assert_eq!(a.project, Some("../broot".to_string()));
}

#[test]
fn positional_job() {
    let mut a = args(&["check-all"], None, None);
    assert!(a.fix().is_ok());
    assert_eq!(a.job, Some("check-all".to_string()));
    assert_eq!(a.project, None);
    let mut a = args(&["clippy", "../broot"], None, None);
    assert!(a.fix().is_ok());
    assert_eq!(a.job, Some("clippy".to_string()));
    assert_eq!(a.project, Some("../broot".to_string()));
    let mut a = args(&["../broot", "test"], None, None);
    assert!(a.fix().is_ok());
    assert_eq!(a.job, Some("test".to_string()));
    assert_eq!(a.project, Some("../broot".to_string()));
    let mut a = args(&["../broot"], Some("test"), None);
    assert!(a.fix().is_ok());
    assert_eq!(a.project, Some("../broot".to_string()));
}

#[test]
fn positional_errors() {
    let mut a = args(&["a", "b"], Some("test"), None);
    assert!(matches!(a.fix(), Err(ArgsError::TooManyArguments)));
    assert_eq!(a.job, Some("test".to_string()));
    let mut a = args(&["x"], Some("test"), Some("p"));
    match a.fix() {
        Err(ArgsError::UnexpectedArgument(s)) => assert_eq!(s, "x"),
        _ => panic!("expected an unexpected argument"),
    }
}

#[test]
fn display_settings_order() {
    let mut d = DisplaySettings::default();
    d.apply_prefs(&Prefs { summary: Some(true), wrap: Some(false) });
    assert!(d.summary);
    assert!(!d.wrap);
    let mut a = args(&[], None, None);
    a.no_summary = true;
    a.wrap = true;
    a.no_wrap = true;
    d.apply_args(&a);
    assert!(!d.summary);
    assert!(d.wrap);
}

#[test]
fn periods() {
    assert_eq!(Period::parse("25ms"), Ok(Period { secs: 0, nanos: 25_000_000 }));
    assert_eq!(Period::parse("1500 ms"), Ok(Period { secs: 1, nanos: 500_000_000 }));
    assert_eq!(Period::parse("254ns"), Ok(Period { secs: 0, nanos: 254 }));
    assert_eq!(Period::parse("3000000001ns"), Ok(Period { secs: 3, nanos: 1 }));
    assert_eq!(Period::parse("2s"), Ok(Period { secs: 2, nanos: 0 }));
    assert_eq!(Period::parse("none"), Ok(Period { secs: 0, nanos: 0 }));
    assert_eq!(Period::parse("0"), Ok(Period { secs: 0, nanos: 0 }));
    assert_eq!(Period::parse(""), Ok(Period { secs: 0, nanos: 0 }));
    assert_eq!(Period::parse("off"), Ok(Period { secs: 0, nanos: 0 }));
    assert_eq!(Period::parse("5"), Err(PeriodError::InvalidPeriod));
    assert_eq!(Period::parse("5 minutes"), Err(PeriodError::InvalidPeriod));
    assert_eq!(Period::parse("99999999999999999999s"), Err(PeriodError::InvalidNumber));
    assert_eq!(Period::parse("\u{663}ms"), Err(PeriodError::InvalidNumber));
    assert!(Period::parse("0ms").unwrap().is_zero());
    assert!(!Period::parse("1ns").unwrap().is_zero());
}

fn report_with(lines: Vec<Line>) -> Report {
    Report::new(lines)
}

#[test]
fn command_results() {
    let ok = CommandResult::new(CommandOutput::default(), Some(0), report_with(Vec::new()));
    assert!(ok.is_success());
    assert!(ok.report().is_some());
    // a nonzero exit code without error in the report is a failure
    let failed = CommandResult::new(CommandOutput::default(), Some(101), report_with(Vec::new()));
    assert!(!failed.is_success());
    assert!(failed.report().is_none());
    assert!(failed.output().is_some());
    let lines = vec![Line {
        item_idx: 1,
        line_type: LineType::Title(Kind::Error),
        content: burp::error_line("boom"),
    }];
    let with_errors = CommandResult::new(CommandOutput::default(), Some(101), report_with(lines));
    assert!(!with_errors.is_success());
    assert_eq!(with_errors.report().unwrap().stats.errors, 1);
    assert!(CommandResult::NotComputed.output().is_none());
}

#[test]
fn output_reverse() {
    let mut output = CommandOutput::default();
    for s in ["a", "b", "c"] {
        output.push(CommandOutputLine {
            content: TLine::from_raw(s.to_string()),
            origin: CommandStream::StdOut,
        });
    }
    output.reverse();
    assert_eq!(output.lines[0].content.to_raw(), "c");
    output.reverse();
    assert_eq!(output.lines[0].content.to_raw(), "a");
    assert_eq!(output.len(), 3);
}

#[test]
fn badges() {
    let error = LineType::Title(Kind::Error);
    assert_eq!(error.draw(5), Some((TitleBadge::Error, " 5 ".to_string())));
    assert_eq!(error.draw(12), Some((TitleBadge::Error, "12 ".to_string())));
    assert_eq!(error.draw(123), Some((TitleBadge::Error, "123".to_string())));
    assert_eq!(error.draw(1234), Some((TitleBadge::Error, "1234".to_string())));
    assert_eq!(
        LineType::Title(Kind::TestOutput).draw(0),
        Some((TitleBadge::TestFail, " 0 ".to_string()))
    );
    assert_eq!(
        LineType::Title(Kind::Warning).draw(7),
        Some((TitleBadge::Warning, " 7 ".to_string()))
    );
    assert_eq!(LineType::Title(Kind::Sum).draw(7), None);
    assert_eq!(
        LineType::Title(Kind::TestFail).badge(7),
        Some(BadgeOutput::Written(
            "\u{1b}[1m\u{1b}[38;5;235m\u{1b}[48;5;208m 7 \u{1b}[0m\u{1b}[0m".to_string()
        ))
    );
    assert_eq!(LineType::Normal.badge(7), None);
    assert_eq!(LineType::Title(Kind::Sum).badge(7), None);
    assert_eq!(
        LineType::Title(Kind::Error).badge(12),
        Some(BadgeOutput::BlackBoldOn(BadgeBackground::Red, "12 ".to_string()))
    );
    assert_eq!(
        LineType::Title(Kind::Warning).badge(7),
        Some(BadgeOutput::BlackBoldOn(BadgeBackground::Yellow, " 7 ".to_string()))
    );
    assert_eq!(LineType::Location.draw(7), None);
    assert_eq!(error.cols(), 3);
    assert_eq!(LineType::Normal.cols(), 0);
}

#[test]
fn line_types() {
    assert!(LineType::Title(Kind::Error).is_summary());
    assert!(!LineType::Normal.is_summary());
    assert!(!LineType::Raw(CommandStream::StdErr).is_summary());
    assert!(LineType::Continuation { offset: 1, summary: true }.is_summary());
    assert!(LineType::Normal.matches(false));
    assert!(!LineType::Normal.matches(true));
    let lines = vec![
        Line {
            item_idx: 1,
            line_type: LineType::Location,
            content: TLine::from_raw("x".to_string()),
        },
        Line {
            item_idx: 1,
            line_type: LineType::Continuation { offset: 1, summary: true },
            content: TLine::from_raw("y".to_string()),
        },
        Line {
            item_idx: 1,
            line_type: LineType::Continuation { offset: 5, summary: true },
            content: TLine::from_raw("z".to_string()),
        },
    ];
    assert_eq!(LineType::at_index_in(1, &lines), Some(LineType::Location));
    assert_eq!(LineType::at_index_in(2, &lines), None);
    assert_eq!(LineType::at_index_in(3, &lines), None);
}

#[test]
fn lines_and_burp() {
    assert_eq!(TLine::from_raw("abc".to_string()).to_raw(), "abc");
    assert_eq!(TLine::failed("t::x").to_raw(), " FAIL  t::x");
    assert_eq!(TLine::passed("t::x").to_raw(), " PASS  t::x");
    assert_eq!(burp::location_line("a.rs:1:2").to_raw(), "   --> a.rs:1:2");
    assert_eq!(burp::error_line("oops").to_raw(), "error: oops");
    assert_eq!(burp::failure_line("t").to_raw(), "failure: t");
    assert!(TLine::from_raw(" \t".to_string()).is_blank());
    assert!(!TLine::from_raw(" x".to_string()).is_blank());
    assert_eq!(TLine::from_raw("x".to_string()).if_unstyled(), Some("x"));
    assert_eq!(TLine::failed("x").if_unstyled(), None);
}
