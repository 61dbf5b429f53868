//! Classification of the lines of cargo-like outputs (build, clippy, test)
use vstd::prelude::*;
use crate::analysis::line_analysis::{
    analysis_of_type,
    analysis_with_key,
    LineAnalysis,
    LineAnalysisView,
};
use crate::analysis::line_type::{Kind, LineType};
use crate::analysis::patterns::{
    arrow_loc_exec,
    build_failed_exec,
    comma_loc_exec,
    delimited_key_exec,
    ends_with_comma_loc,
    ends_with_generated_warnings,
    ends_with_generated_warnings_exec,
    fail_title_key,
    has_generated_warnings,
    has_generated_warnings_exec,
    is_arrow_loc,
    is_ascii_spaces,
    is_ascii_ws,
    is_build_failed,
    is_n_warnings_emitted,
    is_panicked_at,
    n_warnings_emitted_exec,
    panicked_at_exec,
    stack_overflow_key,
    suggests_backtrace,
    suggests_backtrace_exec,
};
use crate::analysis::standard::test_lines::{as_test_name, as_test_result, spec_as_test_result, test_key};
use crate::analysis::line_analyzer::{analyze_run, LineAnalyzer};
use crate::command_output::{CommandOutputLine, CommandOutputLineView, CommandStream};
use crate::text::{occurs_at, starts_with, str_eq, string_of, to_chars};
use crate::tline::{is_blank_line, unstyled_text, TLine, TStringView};
use crate::tty::{CSI_BOLD, CSI_BOLD_BLUE, CSI_BOLD_RED, CSI_BOLD_YELLOW, CSI_GREEN, CSI_RED};

verus! {

/// The style of the body of an error title
pub const CSI_ERROR_BODY: &'static str = CSI_BOLD;

/// The type of an unstyled line which isn't about a test
pub open spec fn std_unstyled_line_type(t: Seq<char>, origin: CommandStream) -> LineType {
    if origin == CommandStream::StdErr && occurs_at(t, "error: "@, 0) && !occurs_at(
        t,
        "error: aborting due to"@,
        0,
    ) {
        LineType::Title(Kind::Error)
    } else if origin == CommandStream::StdErr && occurs_at(t, "warning: "@, 0)
        && !ends_with_generated_warnings(t) {
        LineType::Title(Kind::Warning)
    } else if t == "failures:"@ {
        LineType::Title(Kind::Sum)
    } else if suggests_backtrace(t) {
        LineType::BacktraceSuggestion
    } else if ends_with_comma_loc(t) || is_arrow_loc(t) || is_panicked_at(t) {
        LineType::Location
    } else {
        LineType::Normal
    }
}

/// The analysis of an unstyled line
pub open spec fn std_unstyled_analysis(t: Seq<char>, origin: CommandStream) -> LineAnalysisView {
    match spec_as_test_result(t) {
        Some((k, r)) => analysis_with_key(LineType::TestResult(r), k),
        None => match fail_title_key(t) {
            Some(k) => analysis_with_key(LineType::Title(Kind::TestFail), k),
            None => match stack_overflow_key(t) {
                Some(k) => analysis_with_key(LineType::Title(Kind::TestFail), k),
                None => analysis_of_type(std_unstyled_line_type(t, origin)),
            },
        },
    }
}

/// Some string of the line holds a count of warnings
pub open spec fn line_has_generated_warnings(l: Seq<TStringView>) -> bool {
    exists|i: int| 0 <= i < l.len() && has_generated_warnings(#[trigger] l[i].raw)
}

/// The type of a warning title: a summary when it counts warnings or tells
/// the build failed
pub open spec fn warning_type(body_raw: Seq<char>, l: Seq<TStringView>) -> LineType {
    if is_n_warnings_emitted(body_raw) || line_has_generated_warnings(l) || (l.len() > 2
        && is_build_failed(l[2].raw)) {
        LineType::Title(Kind::Sum)
    } else {
        LineType::Title(Kind::Warning)
    }
}

/// The analysis of a test line whose outcome is in a styled string
pub open spec fn styled_test_result(title_raw: Seq<char>, passed: bool) -> LineAnalysisView {
    match test_key(title_raw, None) {
        Some(k) => analysis_with_key(LineType::TestResult(passed), k),
        None => analysis_of_type(LineType::Normal),
    }
}

/// All the characters are ASCII white space
pub open spec fn all_ascii_ws(s: Seq<char>) -> bool {
    forall|i: int| 0 <= i < s.len() ==> #[trigger] is_ascii_ws(s[i])
}

/// The analysis of a styled line, from its first two strings
pub open spec fn std_styled_analysis(l: Seq<TStringView>) -> LineAnalysisView {
    if l.len() >= 2 {
        let title = l[0];
        let body = l[1];
        if title.csi == CSI_BOLD_RED@ && title.raw == "error"@ && body.csi == CSI_ERROR_BODY@
            && occurs_at(body.raw, ": aborting due to"@, 0) {
            analysis_of_type(LineType::Title(Kind::Sum))
        } else if title.csi == CSI_BOLD_RED@ && occurs_at(title.raw, "error"@, 0) && body.csi
            == CSI_ERROR_BODY@ {
            analysis_of_type(LineType::Title(Kind::Error))
        } else if title.csi == CSI_BOLD_YELLOW@ && title.raw == "warning"@ {
            analysis_of_type(warning_type(body.raw, l))
        } else if title.csi.len() == 0 && all_ascii_ws(title.raw) && body.csi == CSI_BOLD_BLUE@ && (
        body.raw == "--> "@ || body.raw == "::: "@) {
            analysis_of_type(LineType::Location)
        } else if title.csi.len() == 0 && (body.csi == CSI_BOLD_RED@ || body.csi == CSI_RED@)
            && body.raw == "FAILED"@ && l.len() == 2 {
            styled_test_result(title.raw, false)
        } else if title.csi.len() == 0 && body.csi == CSI_GREEN@ && body.raw == "ok"@ {
            styled_test_result(title.raw, true)
        } else {
            analysis_of_type(LineType::Normal)
        }
    } else if l.len() == 1 && is_panicked_at(l[0].raw) {
        analysis_of_type(LineType::Location)
    } else {
        analysis_of_type(LineType::Normal)
    }
}

/// The analysis of a line of a cargo-like output
pub open spec fn std_line_analysis(line: CommandOutputLineView) -> LineAnalysisView {
    if is_blank_line(line.content) {
        analysis_of_type(LineType::Normal)
    } else {
        match unstyled_text(line.content) {
            Some(t) => std_unstyled_analysis(t, line.origin),
            None => std_styled_analysis(line.content),
        }
    }
}

/// The type of an unstyled line which isn't about a test
fn unstyled_line_type(t: &str, origin: CommandStream) -> (r: LineType)
    ensures
        r == std_unstyled_line_type(t@, origin),
{
    let s = to_chars(t);
    let s = s.as_slice();
    let is_err = origin == CommandStream::StdErr;
    if is_err && starts_with(s, to_chars("error: ").as_slice()) && !starts_with(
        s,
        to_chars("error: aborting due to").as_slice(),
    ) {
        LineType::Title(Kind::Error)
    } else if is_err && starts_with(s, to_chars("warning: ").as_slice())
        && !ends_with_generated_warnings_exec(s) {
        LineType::Title(Kind::Warning)
    } else if str_eq(t, "failures:") {
        LineType::Title(Kind::Sum)
    } else if suggests_backtrace_exec(s) {
        LineType::BacktraceSuggestion
    } else if comma_loc_exec(s) || arrow_loc_exec(s) || panicked_at_exec(s, 0) {
        proof {
            assert(t@.skip(0) =~= t@);
        }
        LineType::Location
    } else {
        assert(t@.skip(0) =~= t@);
        LineType::Normal
    }
}

/// The key delimited by a prefix and a suffix
fn delimited(t: &str, pre: &str, suf: &str) -> (r: Option<String>)
    ensures
        match r {
            Some(k) => crate::analysis::patterns::delimited_key(t@, pre@, suf@) == Some(k@),
            None => crate::analysis::patterns::delimited_key(t@, pre@, suf@) is None,
        },
{
    let s = to_chars(t);
    match delimited_key_exec(s.as_slice(), to_chars(pre).as_slice(), to_chars(suf).as_slice()) {
        Some((a, b)) => Some(string_of(s.as_slice(), a, b)),
        None => None,
    }
}

/// The analysis of an unstyled line
fn unstyled_analysis(t: &str, origin: CommandStream) -> (r: LineAnalysis)
    ensures
        r@ == std_unstyled_analysis(t@, origin),
{
    if let Some((k, r)) = as_test_result(t) {
        return LineAnalysis::test_result(k, r);
    }
    if let Some(k) = delimited(t, "---- ", " stdout ----") {
        return LineAnalysis::title_key(Kind::TestFail, k);
    }
    if let Some(k) = delimited(t, "thread '", "' has overflowed its stack") {
        return LineAnalysis::title_key(Kind::TestFail, k);
    }
    LineAnalysis::of_type(unstyled_line_type(t, origin))
}

/// Whether some string of the line holds a count of warnings
fn line_has_generated_warnings_exec(content: &TLine) -> (r: bool)
    ensures
        r == line_has_generated_warnings(content@),
{
    let mut i: usize = 0;
    while i < content.strings.len()
        invariant
            i <= content@.len(),
            content@.len() == content.strings@.len(),
            forall|j: int| 0 <= j < i ==> !has_generated_warnings(#[trigger] content@[j].raw),
        decreases content@.len() - i,
    {
        let raw = to_chars(content.strings[i].raw.as_str());
        if has_generated_warnings_exec(raw.as_slice()) {
            assert(content@[i as int].raw == content.strings@[i as int].raw@);
            return true;
        }
        i += 1;
    }
    false
}

/// The type of a warning title
fn warning_type_exec(body_raw: &str, content: &TLine) -> (r: LineType)
    ensures
        r == warning_type(body_raw@, content@),
{
    let b = to_chars(body_raw);
    let build_failed = if content.strings.len() > 2 {
        let raw = to_chars(content.strings[2].raw.as_str());
        build_failed_exec(raw.as_slice())
    } else {
        false
    };
    if n_warnings_emitted_exec(b.as_slice()) || line_has_generated_warnings_exec(content)
        || build_failed {
        LineType::Title(Kind::Sum)
    } else {
        LineType::Title(Kind::Warning)
    }
}

/// The analysis of a test line whose outcome is in a styled string
fn styled_test_result_exec(title_raw: &str, passed: bool) -> (r: LineAnalysis)
    ensures
        r@ == styled_test_result(title_raw@, passed),
{
    match as_test_name(title_raw) {
        Some(k) => LineAnalysis::test_result(k, passed),
        None => LineAnalysis::normal(),
    }
}

/// The analysis of a styled line
fn styled_analysis(content: &TLine) -> (r: LineAnalysis)
    ensures
        r@ == std_styled_analysis(content@),
{
    let n = content.strings.len();
    if n >= 2 {
        let title = &content.strings[0];
        let body = &content.strings[1];
        assert(content@[0] == title@ && content@[1] == body@);
        let title_csi = title.csi.as_str();
        let title_raw = title.raw.as_str();
        let body_csi = body.csi.as_str();
        let body_raw = body.raw.as_str();
        let title_unstyled = title.is_unstyled();
        if str_eq(title_csi, CSI_BOLD_RED) && str_eq(title_raw, "error") && str_eq(
            body_csi,
            CSI_ERROR_BODY,
        ) && starts_with(
            to_chars(body_raw).as_slice(),
            to_chars(": aborting due to").as_slice(),
        ) {
            LineAnalysis::of_type(LineType::Title(Kind::Sum))
        } else if str_eq(title_csi, CSI_BOLD_RED) && starts_with(
            to_chars(title_raw).as_slice(),
            to_chars("error").as_slice(),
        ) && str_eq(body_csi, CSI_ERROR_BODY) {
            LineAnalysis::of_type(LineType::Title(Kind::Error))
        } else if str_eq(title_csi, CSI_BOLD_YELLOW) && str_eq(title_raw, "warning") {
            LineAnalysis::of_type(warning_type_exec(body_raw, content))
        } else if title_unstyled && is_ascii_spaces(to_chars(title_raw).as_slice()) && str_eq(
            body_csi,
            CSI_BOLD_BLUE,
        ) && (str_eq(body_raw, "--> ") || str_eq(body_raw, "::: ")) {
            LineAnalysis::of_type(LineType::Location)
        } else if title_unstyled && (str_eq(body_csi, CSI_BOLD_RED) || str_eq(body_csi, CSI_RED))
            && str_eq(body_raw, "FAILED") && n == 2 {
            styled_test_result_exec(title_raw, false)
        } else if title_unstyled && str_eq(body_csi, CSI_GREEN) && str_eq(body_raw, "ok") {
            styled_test_result_exec(title_raw, true)
        } else {
            LineAnalysis::normal()
        }
    } else if n == 1 {
        let raw = to_chars(content.strings[0].raw.as_str());
        assert(content@[0].raw == raw@);
        assert(raw@.skip(0) =~= raw@);
        if panicked_at_exec(raw.as_slice(), 0) {
            LineAnalysis::of_type(LineType::Location)
        } else {
            LineAnalysis::normal()
        }
    } else {
        LineAnalysis::normal()
    }
}

/// The analysis of a line of a cargo-like output
pub fn analyze_line(cmd_line: &CommandOutputLine) -> (r: LineAnalysis)
    ensures
        r@ == std_line_analysis(cmd_line@),
{
    let content = &cmd_line.content;
    if content.is_blank() {
        LineAnalysis::normal()
    } else if let Some(t) = content.if_unstyled() {
        unstyled_analysis(t, cmd_line.origin)
    } else {
        styled_analysis(content)
    }
}

/// The analyzer of the lines of cargo-like outputs
#[derive(Debug)]
pub struct StandardLineAnalyzer {}

impl View for StandardLineAnalyzer {
    type V = ();

    open spec fn view(&self) -> () {
        ()
    }
}

impl LineAnalyzer for StandardLineAnalyzer {
    open spec fn analysis_of(state: (), line: CommandOutputLineView) -> LineAnalysisView {
        std_line_analysis(line)
    }

    open spec fn after(state: (), line: CommandOutputLineView) -> () {
        ()
    }

    fn analyze_line(&mut self, line: &CommandOutputLine) -> (r: LineAnalysis) {
        analyze_line(line)
    }
}

/// The analyses of lines of a cargo-like output, with their content
pub open spec fn standard_analyses(lines: Seq<CommandOutputLineView>) -> Seq<
    (LineAnalysisView, Seq<TStringView>),
> {
    lines.map_values(|l: CommandOutputLineView| (std_line_analysis(l), l.content))
}

/// Running the standard line analyzer on lines analyzes each line alone
pub proof fn lemma_standard_run(lines: Seq<CommandOutputLineView>)
    ensures
        analyze_run::<StandardLineAnalyzer>((), lines) == ((), standard_analyses(lines)),
    decreases lines.len(),
{
    if lines.len() > 0 {
        lemma_standard_run(lines.drop_last());
        assert(standard_analyses(lines) =~= standard_analyses(lines.drop_last()).push(
            (std_line_analysis(lines.last()), lines.last().content),
        ));
    } else {
        assert(standard_analyses(lines) =~= Seq::empty());
    }
}

} // verus!
