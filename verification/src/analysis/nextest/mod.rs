//! The analyzer of the output of cargo-nextest
pub mod nextest_line_analyser;

use vstd::prelude::*;
use crate::analysis::analyzer::{AnalysisError, Analyzer};
use crate::analysis::line_analyzer::analyze_run;
use crate::analysis::standard::standard_report_building::{
    build_report,
    failed_keys,
    std_final,
    std_report_lines,
};
use crate::command_output::{output_lines_view, CommandOutput, CommandOutputLine, CommandOutputLineView};
use crate::report::{lines_view, stats_of, strings_view, LineView, Report};
use crate::tline::TStringView;
use crate::analysis::line_analysis::LineAnalysisView;
use nextest_line_analyser::NextestLineAnalyzer;

verus! {

/// The analyses of the lines of a nextest output, with their content
pub open spec fn nextest_analyses(lines: Seq<CommandOutputLineView>) -> Seq<
    (LineAnalysisView, Seq<TStringView>),
> {
    analyze_run::<NextestLineAnalyzer>(None, lines).1
}

/// The lines of the report of a nextest output
pub open spec fn nextest_report_lines(lines: Seq<CommandOutputLineView>) -> Seq<LineView> {
    std_report_lines(std_final(nextest_analyses(lines)))
}

/// The analyzer of nextest outputs
#[derive(Debug)]
pub struct NextestAnalyzer {
    lines: Vec<CommandOutputLine>,
}

impl NextestAnalyzer {
    /// The lines received since the start
    pub closed spec fn received(&self) -> Seq<CommandOutputLineView> {
        output_lines_view(self.lines@)
    }
}

impl Default for NextestAnalyzer {
    fn default() -> (r: Self)
        ensures
            r.received() == Seq::<CommandOutputLineView>::empty(),
    {
        let r = NextestAnalyzer { lines: Vec::new() };
        assert(r.received() =~= Seq::<CommandOutputLineView>::empty());
        r
    }
}

impl Analyzer for NextestAnalyzer {
    fn start(&mut self)
        ensures
            final(self).received() == Seq::<CommandOutputLineView>::empty(),
    {
        self.lines.clear();
        assert(self.received() =~= Seq::<CommandOutputLineView>::empty());
    }

    fn receive_line(&mut self, line: CommandOutputLine, command_output: &mut CommandOutput)
        ensures
            final(self).received() == old(self).received().push(line@),
            final(command_output)@ == old(command_output)@.push(line@),
    {
        self.lines.push(line.clone());
        assert(self.received() =~= old(self).received().push(line@));
        command_output.push(line);
    }

    fn build_report(&mut self) -> (r: Result<Report, AnalysisError>)
        ensures
            final(self).received() == old(self).received(),
            match r {
                Ok(report) => {
                    &&& lines_view(report.lines@) == nextest_report_lines(old(self).received())
                    &&& report.stats == stats_of(nextest_report_lines(old(self).received()))
                    &&& report.suggest_backtrace == std_final(
                        nextest_analyses(old(self).received()),
                    ).suggest_backtrace
                    &&& report.has_passed_tests == (std_final(
                        nextest_analyses(old(self).received()),
                    ).passed_tests > 0)
                    &&& strings_view(report.failure_keys@) == failed_keys(
                        std_final(nextest_analyses(old(self).received())).tests,
                    )
                },
                Err(_) => false,
            },
    {
        let a = NextestLineAnalyzer::default();
        Ok(build_report(self.lines.as_slice(), a))
    }
}

} // verus!
