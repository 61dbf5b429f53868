use bacon::analysis::analyzer::{Analyzer, AnalyzerRef, AnyAnalyzer};
use bacon::analysis::line_analyzer::LineAnalyzer;
use bacon::analysis::line_type::{Kind, LineType};
use bacon::analysis::nextest::nextest_line_analyser::NextestLineAnalyzer;
use bacon::analysis::nextest::NextestAnalyzer;
use bacon::command_output::{CommandOutput, CommandOutputLine, CommandStream};
use bacon::analysis::eslint::eslint_line_analyzer::get_location_path;
use bacon::analysis::python::unittest::analyze_line;
use bacon::report::Report;
use bacon::tline::{TLine, TString};

fn raw(s: &str) -> CommandOutputLine {
    CommandOutputLine {
        content: TLine::from_raw(s.to_string()),
        origin: CommandStream::StdOut,
    }
}

fn styled(parts: &[(&str, &str)]) -> CommandOutputLine {
    CommandOutputLine {
        content: TLine {
            strings: parts.iter().map(|(c, r)| TString::new(c, r)).collect(),
        },
        origin: CommandStream::StdOut,
    }
}

fn raws(report: &Report) -> Vec<(LineType, String)> {
    report
        .lines
        .iter()
        .map(|l| (l.line_type, l.content.to_raw()))
        .collect()
}

#[test]
fn nextest_lines() {
    let mut a = NextestLineAnalyzer::default();
    let fail = styled(&[
        ("\u{1b}[31;1m", "        FAIL"),
        ("", " [   0.004s] "),
        ("\u{1b}[35;1m", "bacon"),
        ("", " "),
        ("\u{1b}[36m", "tests::"),
        ("\u{1b}[34;1m", "boom"),
    ]);
    let r = a.analyze_line(&fail);
    assert_eq!(r.line_type, LineType::TestResult(false));
    assert_eq!(r.key, Some("tests::boom".to_string()));
    // the new section title gives the last test key
    let section = styled(&[
        ("", "  "),
        ("\u{1b}[31;1m", "stderr"),
        ("", " "),
        ("\u{1b}[31;1m", "───"),
    ]);
    let r = a.analyze_line(&section);
    assert_eq!(r.line_type, LineType::Title(Kind::TestFail));
    assert_eq!(r.key, Some("tests::boom".to_string()));
    // only stdout or stderr open the section
    let not_a_section = TLine {
        strings: vec![
            TString::new("\u{1b}[31;1m", "stdfoo"),
            TString::new("", " "),
            TString::new("\u{1b}[31;1m", "───"),
        ],
    };
    assert_eq!(a.stdx_section_key(&not_a_section), None);
    assert_eq!(a.analyze_line(&raw("running 3 tests")).line_type, LineType::Garbage);
    assert_eq!(a.analyze_line(&raw("running 1 test")).line_type, LineType::Garbage);
    assert_eq!(a.analyze_line(&raw("running x tests")).line_type, LineType::Normal);
    assert_eq!(a.analyze_line(&raw("------------")).line_type, LineType::SectionEnd);
    let loc = styled(&[("\u{1b}[31;1m", "  thread 'tests::boom' panicked at src/lib.rs:8:9:")]);
    assert_eq!(a.analyze_line(&loc).line_type, LineType::Location);
}

#[test]
fn nextest_v2_section() {
    let a = NextestLineAnalyzer::default();
    let line = TLine {
        strings: vec![
            TString::new("\u{1b}[31;1m", "────"),
            TString::new("", " "),
            TString::new("\u{1b}[31;1m", "STDERR:"),
            TString::new("\u{1b}[35;1m", "bacon"),
            TString::new("", " "),
            TString::new("\u{1b}[36m", "tests::"),
            TString::new("\u{1b}[34;1m", "boom"),
        ],
    };
    assert_eq!(a.stdx_section_key(&line), Some("tests::boom".to_string()));
}

#[test]
fn nextest_report() {
    let mut analyzer = NextestAnalyzer::default();
    let mut output = CommandOutput::default();
    analyzer.start();
    analyzer.receive_line(
        styled(&[
            ("\u{1b}[32;1m", "        PASS"),
            ("", " [   0.003s] "),
            ("\u{1b}[35;1m", "bacon"),
            ("", " "),
            ("\u{1b}[36m", "tests::fine"),
        ]),
        &mut output,
    );
    let report = analyzer.build_report().ok().unwrap();
    assert!(report.has_passed_tests);
    assert_eq!(report.lines.len(), 0);
}

#[test]
fn eslint_report() {
    let lines = vec![
        styled(&[("\u{1b}[4m", "/home/dys/dev/project/src/main.ts")]),
        styled(&[
            ("", "  "),
            ("\u{1b}[2m", "67:52"),
            ("", "  "),
            ("\u{1b}[31m", "error"),
            ("", "  Unnecessary   escape character"),
        ]),
        styled(&[
            ("", "  "),
            ("\u{1b}[2m", "70:1"),
            ("", "  "),
            ("\u{1b}[33m", "warning"),
            ("", "  Unused variable"),
        ]),
        styled(&[("\u{1b}[31m\u{1b}[1m", "✖ 2 problems (1 errors, 1 warnings)"), ("", "  ")]),
    ];
    let report = bacon::analysis::eslint::build_report(&lines);
    assert_eq!(report.stats.errors, 1);
    assert_eq!(report.stats.warnings, 1);
    let r = raws(&report);
    assert_eq!(r[0], (LineType::Title(Kind::Error), "error Unnecessary escape character".to_string()));
    assert_eq!(
        r[1],
        (LineType::Location, "   --> /home/dys/dev/project/src/main.ts:67:52".to_string())
    );
    assert_eq!(r[2].0, LineType::Title(Kind::Warning));
}

#[test]
fn eslint_location_path() {
    let path = |s: &str| get_location_path(&TLine { strings: vec![TString::new("\u{1b}[4m", s)] });
    assert_eq!(path("  /a/b.ts "), Some("  /a/b.ts ".to_string()));
    assert_eq!(path("/a/b.js"), Some("/a/b.js".to_string()));
    // the extension must be made of word characters
    assert_eq!(path("/a/b.t-s"), None);
    assert_eq!(path("/a/b.rs.x"), None);
    assert_eq!(path("a/b.ts"), None);
    assert_eq!(path("/a b.ts"), None);
}

#[test]
fn go_report() {
    let lines = vec![
        raw("# example"),
        raw("./main.go:12:5: undefined: x"),
        raw(""),
        raw(""),
        raw("other"),
    ];
    let report = bacon::analysis::go::build_report(&lines);
    let r = raws(&report);
    assert_eq!(r.len(), 4);
    assert_eq!(r[0], (LineType::Title(Kind::Error), "error: undefined: x".to_string()));
    assert_eq!(r[1], (LineType::Location, "   --> ./main.go:12:5".to_string()));
    assert_eq!(r[2], (LineType::Normal, "".to_string()));
    assert_eq!(r[3], (LineType::Normal, "other".to_string()));
}

#[test]
fn biome_report() {
    let lines = vec![
        raw("src/a.ts:3:8 lint/style/useConst ━━━━━━━━━━"),
        raw("  message"),
        styled(&[
            ("", "src/b.ts:1:2 lint/complexity/noForEach "),
            ("\u{1b}[7m", "FIXABLE"),
            ("", " ━━━━━"),
        ]),
    ];
    let report = bacon::analysis::biome::build_report(&lines);
    let r = raws(&report);
    assert_eq!(r[0], (LineType::Title(Kind::Error), "error: lint/style/useConst".to_string()));
    assert_eq!(r[1], (LineType::Location, "   --> src/a.ts:3:8".to_string()));
    assert_eq!(r[2], (LineType::Normal, "  message".to_string()));
    assert_eq!(
        r[3],
        (LineType::Title(Kind::Error), "error: lint/complexity/noForEach FIXABLE".to_string())
    );
    assert_eq!(r[4], (LineType::Location, "   --> src/b.ts:1:2".to_string()));
    assert_eq!(report.stats.errors, 2);
}

#[test]
fn ruff_report() {
    let cyan = "\u{1b}[36m";
    let lines = vec![styled(&[
        ("\u{1b}[1m", "src/a.py"),
        (cyan, ":"),
        ("", "12"),
        (cyan, ":"),
        ("", "5"),
        (cyan, ":"),
        ("", " "),
        ("\u{1b}[31m", "E501"),
        ("", " Line too long"),
    ])];
    let report = bacon::analysis::python::ruff::build_report(&lines);
    let r = raws(&report);
    assert_eq!(r[0], (LineType::Title(Kind::Error), "error: E501 Line too long".to_string()));
    assert_eq!(r[1], (LineType::Location, "   --> src/a.py:12:5".to_string()));
}

#[test]
fn unittest_report() {
    let lines = vec![
        raw("======================================================================"),
        raw("FAIL: test_add (tests.test_math.TestMath.test_add)"),
        raw("----------------------------------------------------------------------"),
        raw("Traceback (most recent call last):"),
        raw("  File \"/home/me/tests/test_math.py\", line 7, in test_add"),
        raw("    self.assertEqual(1, 2)"),
        raw("  File \"/home/me/other.py\", line 9, in other"),
        raw("AssertionError: 1 != 2"),
    ];
    let report = bacon::analysis::python::unittest::build_report(&lines);
    let r = raws(&report);
    assert_eq!(
        r[0],
        (LineType::Title(Kind::TestFail), "FAIL: test_add (tests.test_math.TestMath.test_add)".to_string())
    );
    assert_eq!(r[1], (LineType::Location, "   --> /home/me/tests/test_math.py:7".to_string()));
    assert_eq!(r[2], (LineType::Normal, "    self.assertEqual(1, 2)".to_string()));
    assert_eq!(r[3].0, LineType::Location);
    assert_eq!(r[3].1, "  File \"/home/me/other.py\", line 9, in other");
    assert_eq!(report.stats.test_fails, 1);
}

#[test]
fn unittest_lines() {
    let a = analyze_line(&raw("FAIL: test_x (a.b) (c)"));
    assert_eq!(a.line_type, LineType::Title(Kind::TestFail));
    assert_eq!(a.key, Some("a.b) (c".to_string()));
    assert_eq!(analyze_line(&raw("FAIL:test_x (a.b)")).line_type, LineType::Normal);
    assert_eq!(analyze_line(&raw("=====")).line_type, LineType::Normal);
}

#[test]
fn pytest_report() {
    let lines = vec![
        raw("============================= test session starts =============================="),
        raw("collected 2 items"),
        raw("=================================== FAILURES ==================================="),
        raw("___________________________________ test_x ____________________________________"),
        raw("    def test_x():"),
        raw("tests/test_x.py:12: AssertionError"),
        raw("tests/test_x.py:12: AssertionError"),
        raw("file tests/test_y.py, line 3"),
        raw("=========================== short test summary info ============================"),
        raw("FAILED tests/test_x.py::test_x"),
    ];
    let report = bacon::analysis::python::pytest::build_report(&lines);
    let r = raws(&report);
    assert_eq!(r.len(), 4);
    assert_eq!(r[0], (LineType::Title(Kind::TestFail), "failure: test_x".to_string()));
    assert_eq!(r[1], (LineType::Normal, "    def test_x():".to_string()));
    assert_eq!(r[2], (LineType::Location, "   --> tests/test_x.py:12".to_string()));
    assert_eq!(r[3], (LineType::Location, "   --> tests/test_y.py:3".to_string()));
    assert_eq!(report.stats.test_fails, 1);
}

#[test]
fn analyzers_by_kind() {
    let kinds = [
        AnalyzerRef::Standard,
        AnalyzerRef::Biome,
        AnalyzerRef::Cpp,
        AnalyzerRef::CppDoctest,
        AnalyzerRef::Eslint,
        AnalyzerRef::Go,
        AnalyzerRef::Nextest,
        AnalyzerRef::PythonPytest,
        AnalyzerRef::PythonRuff,
        AnalyzerRef::PythonUnittest,
        AnalyzerRef::SwiftBuild,
        AnalyzerRef::SwiftLint,
    ];
    for kind in kinds {
        let mut analyzer: AnyAnalyzer = kind.create_analyzer().unwrap();
        let report = analyzer.build_report().ok().unwrap();
        assert_eq!(report.lines.len(), 0);
    }
    assert!(AnalyzerRef::CargoJson.create_analyzer().is_none());
    assert!(AnalyzerRef::Typescript.create_analyzer().is_none());
    assert_eq!(AnalyzerRef::default(), AnalyzerRef::Standard);
}
