use bacon::analysis::analyzer::Analyzer;
use bacon::analysis::line_type::{Kind, LineType};
use bacon::analysis::standard::standard_line_analyser::analyze_line;
use bacon::analysis::standard::test_lines::{as_test_name, as_test_result};
use bacon::analysis::standard::StandardAnalyzer;
use bacon::command_output::{CommandOutput, CommandOutputLine, CommandStream};
use bacon::tline::{TLine, TString};
use bacon::tty::{CSI_BOLD, CSI_BOLD_BLUE, CSI_BOLD_RED, CSI_BOLD_YELLOW, CSI_GREEN, CSI_RED};

fn raw_line(s: &str, origin: CommandStream) -> CommandOutputLine {
    CommandOutputLine {
        content: TLine::from_raw(s.to_string()),
        origin,
    }
}

fn styled_line(parts: &[(&str, &str)]) -> CommandOutputLine {
    CommandOutputLine {
        content: TLine {
            strings: parts.iter().map(|(c, r)| TString::new(c, r)).collect(),
        },
        origin: CommandStream::StdErr,
    }
}

fn analysis(line: &CommandOutputLine) -> (LineType, Option<String>) {
    let a = analyze_line(line);
    (a.line_type, a.key)
}

#[test]
fn test_result_lines() {
    assert_eq!(
        as_test_result("test wrap::wrap_tests::check_space_removing ... ok"),
        Some(("wrap::wrap_tests::check_space_removing".to_string(), true))
    );
    assert_eq!(
        as_test_result("test str_fit::fitting_count_tests::test_count_fitting ... FAILED"),
        Some(("str_fit::fitting_count_tests::test_count_fitting".to_string(), false))
    );
    assert_eq!(
        as_test_result("test src/lib.rs - (line 6) ... FAILED"),
        Some(("src/lib.rs - (line 6)".to_string(), false))
    );
    assert_eq!(
        as_test_result("test src/lib.rs - (line 10) ... ok"),
        Some(("src/lib.rs - (line 10)".to_string(), true))
    );
}

#[test]
fn test_result_without_compile_or_should_panic() {
    assert_eq!(
        as_test_result("test src/mode.rs - mode::Mode::new (line 121) - compile ... FAILED"),
        Some(("src/mode.rs - mode::Mode::new (line 121)".to_string(), false))
    );
    assert_eq!(
        as_test_result("test tests::another - should panic ... FAILED"),
        Some(("tests::another".to_string(), false))
    );
    assert_eq!(
        as_test_result("test tests::both - should panic - compile ... ok"),
        Some(("tests::both".to_string(), true))
    );
}

#[test]
fn test_result_unknown_outcome() {
    assert_eq!(as_test_result("test tests::x ... ignored"), None);
    assert_eq!(as_test_result("just some text"), None);
    assert_eq!(as_test_result("test x ...ok"), None);
}

#[test]
fn test_name_without_outcome() {
    assert_eq!(
        as_test_name("test tests::failing ... "),
        Some("tests::failing".to_string())
    );
    assert_eq!(as_test_name("tests::failing ..."), Some("tests::failing".to_string()));
    assert_eq!(as_test_name("tests::failing"), None);
    assert_eq!(as_test_name("tests::failing ... "), Some("tests::failing".to_string()));
}

#[test]
fn unstyled_test_lines() {
    assert_eq!(
        analysis(&raw_line("test a::b ... FAILED", CommandStream::StdOut)),
        (LineType::TestResult(false), Some("a::b".to_string()))
    );
    assert_eq!(
        analysis(&raw_line("---- a::b stdout ----", CommandStream::StdOut)),
        (LineType::Title(Kind::TestFail), Some("a::b".to_string()))
    );
    assert_eq!(
        analysis(&raw_line("thread 'a::b' has overflowed its stack", CommandStream::StdErr)),
        (LineType::Title(Kind::TestFail), Some("a::b".to_string()))
    );
}

#[test]
fn unstyled_errors_and_warnings() {
    assert_eq!(
        analysis(&raw_line("error: could not compile", CommandStream::StdErr)).0,
        LineType::Title(Kind::Error)
    );
    assert_eq!(
        analysis(&raw_line("error: could not compile", CommandStream::StdOut)).0,
        LineType::Normal
    );
    assert_eq!(
        analysis(&raw_line("error: aborting due to 2 previous errors", CommandStream::StdErr)).0,
        LineType::Normal
    );
    assert_eq!(
        analysis(&raw_line("warning: unused variable: `x`", CommandStream::StdErr)).0,
        LineType::Title(Kind::Warning)
    );
    assert_eq!(
        analysis(&raw_line("warning: `bacon` (bin \"bacon\") generated 3 warnings", CommandStream::StdErr)).0,
        LineType::Normal
    );
    assert_eq!(
        analysis(&raw_line("warning: `bacon` (bin \"bacon\") generated 1 warning", CommandStream::StdErr)).0,
        LineType::Normal
    );
    assert_eq!(
        analysis(&raw_line("failures:", CommandStream::StdOut)).0,
        LineType::Title(Kind::Sum)
    );
}

#[test]
fn unstyled_locations() {
    assert_eq!(
        analysis(&raw_line(
            "note: run with `RUST_BACKTRACE=1` environment variable to display a backtrace",
            CommandStream::StdErr
        ))
        .0,
        LineType::BacktraceSuggestion
    );
    assert_eq!(
        analysis(&raw_line("thread 'main' panicked at 'boom', src/main.rs:4:5", CommandStream::StdErr)).0,
        LineType::Location
    );
    assert_eq!(
        analysis(&raw_line("   --> src/main.rs:4:5", CommandStream::StdErr)).0,
        LineType::Location
    );
    assert_eq!(
        analysis(&raw_line("thread 'main' panicked at src/main.rs:4:5:", CommandStream::StdErr)).0,
        LineType::Location
    );
    assert_eq!(
        analysis(&raw_line("thread 'main' panicked at src/main.rs:4:x:", CommandStream::StdErr)).0,
        LineType::Normal
    );
    assert_eq!(
        analysis(&raw_line("see 'src/main.rs:4:5'", CommandStream::StdErr)).0,
        LineType::Normal
    );
    assert_eq!(analysis(&raw_line("   ", CommandStream::StdErr)).0, LineType::Normal);
}

#[test]
fn styled_lines() {
    assert_eq!(
        analysis(&styled_line(&[(CSI_BOLD_RED, "error"), (CSI_BOLD, ": aborting due to 2 previous errors")])).0,
        LineType::Title(Kind::Sum)
    );
    assert_eq!(
        analysis(&styled_line(&[(CSI_BOLD_RED, "error[E0425]"), (CSI_BOLD, ": cannot find value `x`")])).0,
        LineType::Title(Kind::Error)
    );
    assert_eq!(
        analysis(&styled_line(&[(CSI_BOLD_YELLOW, "warning"), (CSI_BOLD, ": unused import")])).0,
        LineType::Title(Kind::Warning)
    );
    assert_eq!(
        analysis(&styled_line(&[(CSI_BOLD_YELLOW, "warning"), (CSI_BOLD, ": 12 warnings emitted")])).0,
        LineType::Title(Kind::Sum)
    );
    assert_eq!(
        analysis(&styled_line(&[
            (CSI_BOLD_YELLOW, "warning"),
            (CSI_BOLD, ": `bacon` (lib)"),
            ("", " generated 2 warnings"),
        ]))
        .0,
        LineType::Title(Kind::Sum)
    );
    assert_eq!(
        analysis(&styled_line(&[(CSI_BOLD_YELLOW, "warning"), ("", ":"), ("", "  build failed")])).0,
        LineType::Title(Kind::Sum)
    );
    assert_eq!(
        analysis(&styled_line(&[("", "  "), (CSI_BOLD_BLUE, "--> "), ("", "src/main.rs:1:1")])).0,
        LineType::Location
    );
    assert_eq!(
        analysis(&styled_line(&[("", "test a::b ... "), (CSI_RED, "FAILED")])),
        (LineType::TestResult(false), Some("a::b".to_string()))
    );
    assert_eq!(
        analysis(&styled_line(&[("", "test a::b ... "), (CSI_RED, "FAILED"), ("", "!")])).0,
        LineType::Normal
    );
    assert_eq!(
        analysis(&styled_line(&[("", "test a::b ... "), (CSI_GREEN, "ok")])),
        (LineType::TestResult(true), Some("a::b".to_string()))
    );
}

#[test]
fn standard_report() {
    let mut analyzer = StandardAnalyzer::default();
    let mut output = CommandOutput::default();
    analyzer.start();
    let lines = vec![
        raw_line("warning: unused variable: `x`", CommandStream::StdErr),
        raw_line("   --> src/a.rs:1:5", CommandStream::StdErr),
        raw_line("error: mismatched types", CommandStream::StdErr),
        raw_line("   --> src/b.rs:2:3", CommandStream::StdErr),
        raw_line("test t::a ... ok", CommandStream::StdOut),
        raw_line("test t::b ... FAILED", CommandStream::StdOut),
        raw_line("---- t::b stdout ----", CommandStream::StdOut),
        raw_line("thread 't::b' panicked at src/c.rs:3:4:", CommandStream::StdOut),
    ];
    for line in lines {
        analyzer.receive_line(line, &mut output);
    }
    assert_eq!(output.len(), 8);
    let report = analyzer.build_report().ok().unwrap();
    assert_eq!(report.stats.errors, 1);
    assert_eq!(report.stats.warnings, 1);
    assert_eq!(report.stats.test_fails, 1);
    assert!(report.has_passed_tests);
    assert_eq!(report.failure_keys, vec!["t::b".to_string()]);
    // errors first, then test failures, then warnings
    let types: Vec<LineType> = report.lines.iter().map(|l| l.line_type).collect();
    assert_eq!(
        types,
        vec![
            LineType::Title(Kind::Error),
            LineType::Location,
            LineType::Title(Kind::TestFail),
            LineType::Location,
            LineType::Title(Kind::Warning),
            LineType::Location,
        ]
    );
    let idx: Vec<usize> = report.lines.iter().map(|l| l.item_idx).collect();
    assert_eq!(idx, vec![1, 1, 2, 2, 3, 3]);
    assert_eq!(report.lines[2].content.to_raw(), " FAIL  t::b");
}
