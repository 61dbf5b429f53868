//! The analyzer of eslint outputs
//!
//! The main specificity of eslint is that the path of a file with problems is
//! given before the problems of the file, each one coming with the line and
//! column in the file.
pub mod eslint_line_analyzer;

use vstd::prelude::*;
use crate::analysis::analyzer::{AnalysisError, Analyzer};
use crate::analysis::item_accumulator::{acc_empty, acc_lines, acc_push, acc_start, AccView, ItemAccumulator};
use crate::analysis::line_analyzer::LineAnalyzer;
use crate::analysis::line_type::LineType;
use crate::burp::{location_line, location_line_view};
use crate::command_output::{output_lines_view, CommandOutput, CommandOutputLine, CommandOutputLineView};
use crate::text::opt_view;
use crate::report::{lines_view, stats_of, LineView, Report};
use eslint_line_analyzer::{cleaned_line, cleaned_tline, eslint_line_analysis, get_location_path, location_path, EslintLineAnalyzer};

verus! {

/// The state of the report building: the items, and the path of the last
/// file met
pub struct EslintState {
    pub acc: AccView,
    pub last_path: Option<Seq<char>>,
}

/// The step of the report building for one line
pub open spec fn eslint_step(st: EslintState, line: CommandOutputLineView) -> EslintState {
    let lt = eslint_line_analysis(line).line_type;
    let l = line.content;
    if lt is Garbage {
        st
    } else if lt is Location && location_path(l) is Some {
        EslintState { last_path: location_path(l), ..st }
    } else {
        let acc = match lt {
            LineType::Title(kind) => acc_start(st.acc, kind),
            _ => st.acc,
        };
        let acc = acc_push(acc, lt, cleaned_line(l));
        if lt is Title && l.len() >= 2 && st.last_path is Some {
            EslintState {
                acc: acc_push(
                    acc,
                    LineType::Location,
                    location_line_view(st.last_path->0 + ":"@ + l[1].raw),
                ),
                ..st
            }
        } else {
            EslintState { acc, ..st }
        }
    }
}

/// The state after the lines
pub open spec fn eslint_final(lines: Seq<CommandOutputLineView>) -> EslintState {
    lines.fold_left(
        EslintState { acc: acc_empty(), last_path: None },
        |st: EslintState, line: CommandOutputLineView| eslint_step(st, line),
    )
}

/// The lines of the report of an eslint output: the problems, each one
/// with a location made of the path of its file, its line and column
pub open spec fn eslint_report_lines(lines: Seq<CommandOutputLineView>) -> Seq<LineView> {
    acc_lines(eslint_final(lines).acc)
}

/// The step of the report building for one line
fn eslint_step_exec(
    line_analyzer: &mut EslintLineAnalyzer,
    items: &mut ItemAccumulator,
    last_location_path: &mut Option<String>,
    cmd_line: &CommandOutputLine,
)
    ensures
        (EslintState { acc: final(items)@, last_path: opt_view(*final(last_location_path)) })
            == eslint_step(
            EslintState { acc: old(items)@, last_path: opt_view(*old(last_location_path)) },
            cmd_line@,
        ),
{
    let line_analysis = line_analyzer.analyze_line(cmd_line);
    let line_type = line_analysis.line_type;
    let content = &cmd_line.content;
    let mut skip = false;
    match line_type {
        LineType::Garbage => {
            skip = true;
        },
        LineType::Title(kind) => {
            items.start_item(kind);
        },
        LineType::Location => {
            if let Some(path) = get_location_path(content) {
                *last_location_path = Some(path);
                skip = true;
            }
        },
        _ => {},
    }
    if !skip {
        items.push_line(line_type, cleaned_tline(content));
        if let LineType::Title(_) = line_type {
            if content.strings.len() >= 2 {
                if let Some(location_path) = &*last_location_path {
                    assert(content@[1] == content.strings@[1]@);
                    let mut location = location_path.clone();
                    location.append(":");
                    location.append(content.strings[1].raw.as_str());
                    items.push_line(LineType::Location, location_line(location.as_str()));
                }
            }
        }
    }
}

/// Build a report from the output of eslint
pub fn build_report(cmd_lines: &[CommandOutputLine]) -> (r: Report)
    ensures
        lines_view(r.lines@) == eslint_report_lines(output_lines_view(cmd_lines@)),
        r.stats == stats_of(eslint_report_lines(output_lines_view(cmd_lines@))),
        !r.suggest_backtrace,
        r.output@.len() == 0,
        r.failure_keys@.len() == 0,
        !r.has_passed_tests,
{
    let ghost lv = output_lines_view(cmd_lines@);
    let mut line_analyzer = EslintLineAnalyzer {};
    let mut items = ItemAccumulator::new();
    let mut last_location_path: Option<String> = None;
    let n = cmd_lines.len();
    let mut i: usize = 0;
    while i < n
        invariant
            i <= n == cmd_lines@.len() == lv.len(),
            lv == output_lines_view(cmd_lines@),
            (EslintState {
                acc: items@,
                last_path: opt_view(last_location_path),
            }) == lv.take(i as int).fold_left(
                EslintState { acc: acc_empty(), last_path: None },
                |st: EslintState, line: CommandOutputLineView| eslint_step(st, line),
            ),
        decreases n - i,
    {
        let cmd_line = &cmd_lines[i];
        proof {
            assert(lv.take(i + 1).drop_last() =~= lv.take(i as int));
            assert(lv[i as int] == cmd_line@);
        }
        eslint_step_exec(&mut line_analyzer, &mut items, &mut last_location_path, cmd_line);
        i += 1;
    }
    assert(lv.take(n as int) =~= lv);
    items.report()
}

/// The analyzer of eslint outputs
#[derive(Debug)]
pub struct EslintAnalyzer {
    lines: Vec<CommandOutputLine>,
}

impl EslintAnalyzer {
    /// The lines received since the start
    pub closed spec fn received(&self) -> Seq<CommandOutputLineView> {
        output_lines_view(self.lines@)
    }
}

impl Default for EslintAnalyzer {
    fn default() -> (r: Self)
        ensures
            r.received() == Seq::<CommandOutputLineView>::empty(),
    {
        let r = EslintAnalyzer { lines: Vec::new() };
        assert(r.received() =~= Seq::<CommandOutputLineView>::empty());
        r
    }
}

impl Analyzer for EslintAnalyzer {
    fn start(&mut self)
        ensures
            final(self).received() == Seq::<CommandOutputLineView>::empty(),
    {
        self.lines.clear();
        assert(self.received() =~= Seq::<CommandOutputLineView>::empty());
    }

    fn receive_line(&mut self, line: CommandOutputLine, command_output: &mut CommandOutput)
        ensures
            final(self).received() == old(self).received().push(line@),
            final(command_output)@ == old(command_output)@.push(line@),
    {
        self.lines.push(line.clone());
        assert(self.received() =~= old(self).received().push(line@));
        command_output.push(line);
    }

    fn build_report(&mut self) -> (r: Result<Report, AnalysisError>)
        ensures
            final(self).received() == old(self).received(),
            match r {
                Ok(report) => lines_view(report.lines@) == eslint_report_lines(old(self).received())
                    && report.stats == stats_of(eslint_report_lines(old(self).received()))
                    && !report.suggest_backtrace && !report.has_passed_tests
                    && report.failure_keys@.len() == 0,
                Err(_) => false,
            },
    {
        Ok(build_report(self.lines.as_slice()))
    }
}

} // verus!
