use bacon::analysis::cpp;
use bacon::analysis::line_type::{Kind, LineType};
use bacon::analysis::nextest_json::{
    build_report_from_events, NextestJSONAnalyzer, OutputLine, SuiteEvent, TestEvent,
};
use bacon::analysis::swift::lint::extract_message_and_rule;
use bacon::analysis::swift::{parse_swift_location, swift_split};
use bacon::command_output::{CommandOutput, CommandOutputLine, CommandStream};
use bacon::tline::{TLine, TString};

fn raw(s: &str) -> CommandOutputLine {
    CommandOutputLine {
        content: TLine::from_raw(s.to_string()),
        origin: CommandStream::StdErr,
    }
}

#[test]
fn cpp_diagnostic() {
    let line = TLine::from_raw("src/main.cpp:12:5: error: expected ';'".to_string());
    let d = cpp::recognize_diagnostic(&line).unwrap();
    assert_eq!(d.level, Kind::Error);
    assert_eq!(d.path, "src/main.cpp");
    assert_eq!(d.line, "12");
    assert_eq!(d.column, "5");
    assert!(cpp::recognize_diagnostic(&TLine::from_raw("nothing here".to_string())).is_none());
    let report = cpp::build_report(&[
        raw("src/main.cpp:12:5: warning: unused variable 'x'"),
        raw("   12 |     int x;"),
    ])
    .ok()
    .unwrap();
    assert_eq!(report.stats.warnings, 1);
    assert_eq!(report.lines[0].line_type, LineType::Title(Kind::Warning));
}

#[test]
fn cpp_diagnostic_marker_alone_in_its_section() {
    let mut line = TLine::new();
    line.strings.push(TString::new("\u{1b}[1m", "a.cpp:1:2:"));
    line.strings.push(TString::new("", " "));
    line.strings.push(TString::new("\u{1b}[35m", "warning:"));
    line.strings.push(TString::new("", " unused x"));
    let d = cpp::recognize_diagnostic(&line).unwrap();
    assert_eq!(d.level, Kind::Warning);
    assert_eq!((d.path, d.line, d.column), ("a.cpp", "1", "2"));
    assert_eq!(d.message.len(), 1);
    assert_eq!(d.message[0].csi, "");
    assert_eq!(d.message[0].raw, " unused x");
}

#[test]
fn swift_pieces() {
    assert_eq!(
        parse_swift_location("path/to/File.swift:12:5"),
        Some(("path/to/File.swift", "12", "5"))
    );
    assert_eq!(parse_swift_location("nothing"), None);
    assert_eq!(
        swift_split("a.swift:1:2: error: bad thing"),
        Some((Kind::Error, "a.swift:1:2", "bad thing"))
    );
    assert_eq!(
        swift_split("a.swift:1:2: warning: odd thing"),
        Some((Kind::Warning, "a.swift:1:2", "odd thing"))
    );
    assert_eq!(swift_split("a.swift:1:2 note"), None);
    assert_eq!(
        extract_message_and_rule("Line should be 120 characters or less (line_length)"),
        ("Line should be 120 characters or less", Some("line_length"))
    );
    assert_eq!(extract_message_and_rule("no rule here"), ("no rule here", None));
}

#[test]
fn nextest_json_events() {
    let events = vec![
        OutputLine::Suite {
            event: SuiteEvent::Started { test_count: 2 },
        },
        OutputLine::Test {
            event: TestEvent::Started,
        },
        OutputLine::Test {
            event: TestEvent::Succeeded {
                name: "crate$tests::fine".to_string(),
            },
        },
        OutputLine::Test {
            event: TestEvent::Failed {
                name: "crate$tests::boom".to_string(),
                stdout: "line 1\nline 2".to_string(),
            },
        },
        OutputLine::Suite {
            event: SuiteEvent::Failed {
                passed: 1,
                failed: 1,
                ignored: 0,
                measured: 0,
                filtered_out: 0,
            },
        },
    ];
    let report = build_report_from_events(&events);
    assert_eq!(report.failure_keys, vec!["tests::boom".to_string()]);
    assert_eq!(report.stats.test_fails, 1);
    assert_eq!(report.stats.passed_tests, 1);
    let raws: Vec<String> = report.lines.iter().map(|l| l.content.to_raw()).collect();
    assert_eq!(raws, vec![" FAIL  tests::boom", "line 1", "line 2"]);
    assert_eq!(report.lines[0].line_type, LineType::Title(Kind::Error));
    assert_eq!(report.lines[0].item_idx, 0);
}

#[test]
fn nextest_json_analyzer_routes_lines() {
    let mut analyzer = NextestJSONAnalyzer::new();
    let mut output = CommandOutput::default();
    analyzer.start();
    analyzer.receive_line(
        CommandOutputLine {
            content: TLine::from_raw("{\"type\":\"suite\"}".to_string()),
            origin: CommandStream::StdOut,
        },
        &mut output,
    );
    analyzer.receive_line(raw("   Compiling bacon"), &mut output);
    assert_eq!(analyzer.json_lines(), vec!["{\"type\":\"suite\"}".to_string()]);
    assert_eq!(output.len(), 1);
}

#[test]
fn styled_strings() {
    let t = TString::new("\u{1b}[1m", "x");
    assert!(t.is_styled());
    assert!(!t.is_unstyled());
    assert!(TString::new("", " ").is_blank());
}
