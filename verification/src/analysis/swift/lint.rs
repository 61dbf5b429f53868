//! Analyzer for [`swiftlint`](https://github.com/realm/SwiftLint)
//!
//! # Config
//!
//! A sample bacon.toml:
//!
//! ```toml
//! [keybindings]
//! l = "job:swift_lint"
//!
//! [jobs.swift_lint]
//! wcommand = ["swiftlint", "lint", "--config", ".swiftlint.yml", "--strict"]
//! watch = ["Sources"]
//! need_stdout = true
//! analyzer = "swift_lint"
//! ```
use vstd::prelude::*;
use crate::analysis::analyzer::{AnalysisError, Analyzer};
use crate::analysis::item_accumulator::{acc_empty, acc_lines, acc_push, acc_start, AccView, ItemAccumulator};
use crate::analysis::line_type::{Kind, LineType};
use crate::analysis::swift::{
    parse_swift_location,
    swift_split,
    spec_extract_message_and_rule,
    spec_recognize_swift,
    swift_location,
    swift_title,
    SwiftDiagView,
};
use crate::burp;
use crate::burp::location_line_view;
use crate::command_output::{output_lines_view, CommandOutput, CommandOutputLine, CommandOutputLineView};
use crate::report::{lines_view, stats_of, Report};
use crate::text::{has_char, rfind_char, split_at_last, starts_with, to_chars, trim_bounds, lemma_split_at_last_unique};
use crate::tline::{tstring_view, tstrings_view, TLine, TString};

verus! {

#[derive(Debug)]
pub struct SwiftLintAnalyzer {
    lines: Vec<CommandOutputLine>,
}

/// A diagnostic of swiftlint
pub struct SwiftLintDiagnostic<'a> {
    pub level: Kind,
    pub path: &'a str,
    pub line: &'a str,
    pub column: &'a str,
    pub message: Vec<TString>,
    pub rule: Option<&'a str>,
}

/// The diagnostic is the one described by the view
pub open spec fn lint_diagnostic_is(d: SwiftLintDiagnostic, v: SwiftDiagView) -> bool {
    &&& d.level == v.level
    &&& d.path@ == v.path
    &&& d.line@ == v.line
    &&& d.column@ == v.column
    &&& tstrings_view(d.message@) == seq![tstring_view(""@, v.message)]
    &&& match d.rule {
        Some(r) => v.rule == Some(r@),
        None => v.rule is None,
    }
}

/// Split a message like "message (rule_name)" into the message and the rule
pub fn extract_message_and_rule(message_part: &str) -> (r: (&str, Option<&str>))
    ensures
        match spec_extract_message_and_rule(message_part@) {
            (m, Some(rule)) => r.0@ == m && r.1 is Some && r.1.unwrap()@ == rule,
            (m, None) => r.0@ == m && r.1 is None,
        },
{
    let chars = to_chars(message_part);
    let n = chars.len();
    if let Some(last_paren) = rfind_char(chars.as_slice(), '(', n) {
        if n > 0 && chars[n - 1] == ')' {
            let (start, end) = trim_bounds(chars.as_slice(), 0, last_paren);
            let message = message_part.substring_char(start, end);
            let rule = message_part.substring_char(last_paren + 1, n - 1);
            proof {
                let m = message_part@;
                let a = m.take(last_paren as int);
                let b = m.skip(last_paren + 1);
                assert(m =~= a + seq!['('] + b);
                assert(!has_char(b, '(')) by {
                    if has_char(b, '(') {
                        let k = choose|k: int| 0 <= k < b.len() && b[k] == '(';
                        assert(m[last_paren + 1 + k] == '(');
                    }
                }
                assert(has_char(m, '('));
                assert(split_at_last(m, '(', a, b));
                let (a2, b2) = choose|a2: Seq<char>, b2: Seq<char>| split_at_last(m, '(', a2, b2);
                lemma_split_at_last_unique(m, '(', a, b, a2, b2);
                assert(chars@.subrange(0, last_paren as int) == a);
                assert(b.drop_last() =~= rule@);
            }
            return (message, Some(rule));
        }
    }
    proof {
        if n > 0 && message_part@.last() == ')' && has_char(message_part@, '(') {
            let k = choose|k: int| 0 <= k < n && message_part@[k] == '(';
            assert(false);
        }
    }
    (message_part, None)
}

/// Recognize a swiftlint diagnostic, which looks like
/// "path:line:column: (error|warning): message (rule)"
pub fn recognize_swiftlint_diagnostic(line: &TLine) -> (r: Option<SwiftLintDiagnostic<'_>>)
    ensures
        match (r, spec_recognize_swift(line@, true)) {
            (Some(d), Some(v)) => lint_diagnostic_is(d, v),
            (None, None) => true,
            _ => false,
        },
{
    let Some(content) = line.if_unstyled() else {
        return None;
    };
    let chars = to_chars(content);
    if starts_with(chars.as_slice(), to_chars("Linting '").as_slice()) || starts_with(
        chars.as_slice(),
        to_chars("Done linting!").as_slice(),
    ) {
        return None;
    }
    let Some((level, location_part, message_part)) = swift_split(content) else {
        return None;
    };
    let Some((path, line_num, column)) = parse_swift_location(location_part) else {
        return None;
    };
    let (message, rule) = extract_message_and_rule(message_part);
    let mut message_strings = Vec::new();
    message_strings.push(TString::new("", message));
    let d = SwiftLintDiagnostic { level, path, line: line_num, column, message: message_strings, rule };
    assert(tstrings_view(d.message@) =~= seq![tstring_view(""@, message@)]);
    Some(d)
}

/// The step of the report building for one line of swift output,
/// `lint` telling whether the rule is extracted from the message
pub open spec fn swift_step(acc: AccView, line: CommandOutputLineView, lint: bool) -> AccView {
    match spec_recognize_swift(line.content, lint) {
        Some(d) => {
            let a = acc_push(acc_start(acc, d.level), LineType::Title(d.level), swift_title(d));
            let a = acc_push(a, LineType::Location, location_line_view(swift_location(d)));
            match d.rule {
                Some(rule) => acc_push(
                    a,
                    LineType::Normal,
                    seq![tstring_view(Seq::empty(), "Rule: "@ + rule)],
                ),
                None => a,
            }
        },
        None => acc_push(acc, LineType::Normal, line.content),
    }
}

/// The lines of the report of swiftlint output
pub open spec fn swiftlint_report_lines(lines: Seq<CommandOutputLineView>) -> Seq<crate::report::LineView> {
    acc_lines(lines.fold_left(acc_empty(), |a: AccView, l: CommandOutputLineView| swift_step(a, l, true)))
}

impl SwiftLintAnalyzer {
    /// The received lines
    pub closed spec fn received(&self) -> Seq<CommandOutputLineView> {
        output_lines_view(self.lines@)
    }

    pub fn new() -> (r: Self)
        ensures
            r.received() == Seq::<CommandOutputLineView>::empty(),
    {
        let r = SwiftLintAnalyzer { lines: Vec::new() };
        assert(r.received() =~= Seq::<CommandOutputLineView>::empty());
        r
    }

    /// Build the report of the received lines
    pub fn report(&self) -> (r: Report)
        ensures
            lines_view(r.lines@) == swiftlint_report_lines(self.received()),
            r.stats == stats_of(swiftlint_report_lines(self.received())),
            !r.suggest_backtrace,
            r.output@.len() == 0,
            r.failure_keys@.len() == 0,
            !r.has_passed_tests,
    {
        let ghost input = self.received();
        let mut items = ItemAccumulator::new();
        let mut i: usize = 0;
        while i < self.lines.len()
            invariant
                i <= self.lines@.len(),
                input == output_lines_view(self.lines@),
                items@ == input.take(i as int).fold_left(
                    acc_empty(),
                    |a: AccView, l: CommandOutputLineView| swift_step(a, l, true),
                ),
            decreases self.lines@.len() - i,
        {
            let line = &self.lines[i];
            proof {
                assert(input.take(i + 1).drop_last() =~= input.take(i as int));
                assert(input[i as int] == line@);
            }
            match recognize_swiftlint_diagnostic(&line.content) {
                Some(diagnostic) => {
                    let content = match diagnostic.level {
                        Kind::Error => burp::error_line_ts(diagnostic.message.as_slice()),
                        _ => burp::warning_line_ts(diagnostic.message.as_slice()),
                    };
                    items.start_item(diagnostic.level);
                    items.push_line(LineType::Title(diagnostic.level), content);
                    let mut location = String::from_str(diagnostic.path);
                    location.append(":");
                    location.append(diagnostic.line);
                    location.append(":");
                    location.append(diagnostic.column);
                    items.push_line(LineType::Location, burp::location_line(location.as_str()));
                    if let Some(rule) = diagnostic.rule {
                        let mut text = String::from_str("Rule: ");
                        text.append(rule);
                        items.push_line(LineType::Normal, TLine::from_raw(text));
                    }
                },
                None => {
                    items.push_line(LineType::Normal, line.content.clone());
                },
            }
            i += 1;
        }
        assert(input.take(self.lines@.len() as int) =~= input);
        items.report()
    }
}

impl Analyzer for SwiftLintAnalyzer {
    fn start(&mut self)
        ensures
            final(self).received() == Seq::<CommandOutputLineView>::empty(),
    {
        self.lines.clear();
        assert(self.received() =~= Seq::<CommandOutputLineView>::empty());
    }

    fn receive_line(&mut self, line: CommandOutputLine, command_output: &mut CommandOutput)
        ensures
            final(self).received() == old(self).received().push(line@),
            final(command_output)@ == old(command_output)@.push(line@),
    {
        self.lines.push(line.clone());
        assert(self.received() =~= old(self).received().push(line@));
        command_output.push(line);
    }

    fn build_report(&mut self) -> (r: Result<Report, AnalysisError>)
        ensures
            final(self).received() == old(self).received(),
            match r {
                Ok(report) => lines_view(report.lines@) == swiftlint_report_lines(old(self).received())
                    && report.stats == stats_of(swiftlint_report_lines(old(self).received()))
                    && !report.suggest_backtrace && !report.has_passed_tests
                    && report.failure_keys@.len() == 0,
                Err(_) => false,
            },
    {
        Ok(self.report())
    }
}

} // verus!
