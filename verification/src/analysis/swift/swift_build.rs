//! Analyzer for swift build.
//!
//! # Config
//!
//! A sample bacon.toml:
//!
//! ```toml
//! default_job = "swift_build"
//!
//! [keybindings]
//! b = "job:swift_build"
//!
//! [jobs.swift_build]
//! command = ["swift", "build"]
//! watch = ["Sources"]
//! need_stdout = true
//! analyzer = "swift_build"
//! ```
//!
//! # Caveats
//!
//! This analyzer processes warnings, but `swift build` is incremental by default, and so warnings
//! will not be consistent. Consider treating warnings as errors if this is a problem.
use vstd::prelude::*;
use crate::analysis::analyzer::{AnalysisError, Analyzer};
use crate::analysis::item_accumulator::{acc_empty, acc_lines, AccView, ItemAccumulator};
use crate::analysis::line_type::{Kind, LineType};
use crate::analysis::swift::lint::swift_step;
use crate::analysis::swift::{parse_swift_location, swift_split, spec_recognize_swift, SwiftDiagView};
use crate::burp;
use crate::command_output::{output_lines_view, CommandOutput, CommandOutputLine, CommandOutputLineView};
use crate::report::{lines_view, stats_of, Report};
use crate::tline::{tstring_view, tstrings_view, TLine, TString};

verus! {

#[derive(Debug)]
pub struct SwiftBuildAnalyzer {
    lines: Vec<CommandOutputLine>,
}

/// A diagnostic of swift build
pub struct SwiftDiagnostic<'a> {
    pub level: Kind,
    pub path: &'a str,
    pub line: &'a str,
    pub column: &'a str,
    pub message: Vec<TString>,
}

/// The diagnostic is the one described by the view
pub open spec fn build_diagnostic_is(d: SwiftDiagnostic, v: SwiftDiagView) -> bool {
    &&& d.level == v.level
    &&& d.path@ == v.path
    &&& d.line@ == v.line
    &&& d.column@ == v.column
    &&& tstrings_view(d.message@) == seq![tstring_view(""@, v.message)]
    &&& v.rule is None
}

/// Recognize a swift diagnostic, which looks like
/// "path:line:column: (error|warning): message"
pub fn recognize_swift_diagnostic(line: &TLine) -> (r: Option<SwiftDiagnostic<'_>>)
    ensures
        match (r, spec_recognize_swift(line@, false)) {
            (Some(d), Some(v)) => build_diagnostic_is(d, v),
            (None, None) => true,
            _ => false,
        },
{
    let Some(content) = line.if_unstyled() else {
        return None;
    };
    let Some((level, location_part, message_part)) = swift_split(content) else {
        return None;
    };
    let Some((path, line_num, column)) = parse_swift_location(location_part) else {
        return None;
    };
    let mut message_strings = Vec::new();
    message_strings.push(TString::new("", message_part));
    let d = SwiftDiagnostic { level, path, line: line_num, column, message: message_strings };
    assert(tstrings_view(d.message@) =~= seq![tstring_view(""@, message_part@)]);
    Some(d)
}

/// The lines of the report of swift build output
pub open spec fn swift_build_report_lines(lines: Seq<CommandOutputLineView>) -> Seq<crate::report::LineView> {
    acc_lines(lines.fold_left(acc_empty(), |a: AccView, l: CommandOutputLineView| swift_step(a, l, false)))
}

impl SwiftBuildAnalyzer {
    /// The received lines
    pub closed spec fn received(&self) -> Seq<CommandOutputLineView> {
        output_lines_view(self.lines@)
    }

    pub fn new() -> (r: Self)
        ensures
            r.received() == Seq::<CommandOutputLineView>::empty(),
    {
        let r = SwiftBuildAnalyzer { lines: Vec::new() };
        assert(r.received() =~= Seq::<CommandOutputLineView>::empty());
        r
    }

    /// Build the report of the received lines
    pub fn report(&self) -> (r: Report)
        ensures
            lines_view(r.lines@) == swift_build_report_lines(self.received()),
            r.stats == stats_of(swift_build_report_lines(self.received())),
            !r.suggest_backtrace,
            r.output@.len() == 0,
            r.failure_keys@.len() == 0,
            !r.has_passed_tests,
    {
        let ghost input = self.received();
        let mut items = ItemAccumulator::new();
        let mut i: usize = 0;
        while i < self.lines.len()
            invariant
                i <= self.lines@.len(),
                input == output_lines_view(self.lines@),
                items@ == input.take(i as int).fold_left(
                    acc_empty(),
                    |a: AccView, l: CommandOutputLineView| swift_step(a, l, false),
                ),
            decreases self.lines@.len() - i,
        {
            let line = &self.lines[i];
            proof {
                assert(input.take(i + 1).drop_last() =~= input.take(i as int));
                assert(input[i as int] == line@);
            }
            match recognize_swift_diagnostic(&line.content) {
                Some(diagnostic) => {
                    let content = match diagnostic.level {
                        Kind::Error => burp::error_line_ts(diagnostic.message.as_slice()),
                        _ => burp::warning_line_ts(diagnostic.message.as_slice()),
                    };
                    items.start_item(diagnostic.level);
                    items.push_line(LineType::Title(diagnostic.level), content);
                    let mut location = String::from_str(diagnostic.path);
                    location.append(":");
                    location.append(diagnostic.line);
                    location.append(":");
                    location.append(diagnostic.column);
                    items.push_line(LineType::Location, burp::location_line(location.as_str()));
                },
                None => {
                    items.push_line(LineType::Normal, line.content.clone());
                },
            }
            i += 1;
        }
        assert(input.take(self.lines@.len() as int) =~= input);
        items.report()
    }
}

impl Analyzer for SwiftBuildAnalyzer {
    fn start(&mut self)
        ensures
            final(self).received() == Seq::<CommandOutputLineView>::empty(),
    {
        self.lines.clear();
        assert(self.received() =~= Seq::<CommandOutputLineView>::empty());
    }

    fn receive_line(&mut self, line: CommandOutputLine, command_output: &mut CommandOutput)
        ensures
            final(self).received() == old(self).received().push(line@),
            final(command_output)@ == old(command_output)@.push(line@),
    {
        self.lines.push(line.clone());
        assert(self.received() =~= old(self).received().push(line@));
        command_output.push(line);
    }

    fn build_report(&mut self) -> (r: Result<Report, AnalysisError>)
        ensures
            final(self).received() == old(self).received(),
            match r {
                Ok(report) => lines_view(report.lines@) == swift_build_report_lines(old(self).received())
                    && report.stats == stats_of(swift_build_report_lines(old(self).received()))
                    && !report.suggest_backtrace && !report.has_passed_tests
                    && report.failure_keys@.len() == 0,
                Err(_) => false,
            },
    {
        Ok(self.report())
    }
}

} // verus!
