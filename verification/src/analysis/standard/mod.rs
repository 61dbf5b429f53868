//! The analyzer of cargo-like outputs: builds, clippy, tests
pub mod standard_line_analyser;
pub mod standard_report_building;
pub mod test_lines;

use vstd::prelude::*;
use crate::analysis::analyzer::{AnalysisError, Analyzer};
use crate::command_output::{output_lines_view, CommandOutput, CommandOutputLine, CommandOutputLineView};
use crate::report::{lines_view, stats_of, strings_view, Report};
use standard_line_analyser::{lemma_standard_run, standard_analyses, StandardLineAnalyzer};
use standard_report_building::{build_report, failed_keys, std_final, std_report_lines};

verus! {

/// The lines of the report of a cargo-like output
pub open spec fn standard_report_lines(lines: Seq<CommandOutputLineView>) -> Seq<crate::report::LineView> {
    std_report_lines(std_final(standard_analyses(lines)))
}

/// The analyzer of cargo-like outputs
#[derive(Debug)]
pub struct StandardAnalyzer {
    lines: Vec<CommandOutputLine>,
}

impl StandardAnalyzer {
    /// The lines received since the start
    pub closed spec fn received(&self) -> Seq<CommandOutputLineView> {
        output_lines_view(self.lines@)
    }
}

impl Default for StandardAnalyzer {
    fn default() -> (r: Self)
        ensures
            r.received() == Seq::<CommandOutputLineView>::empty(),
    {
        let r = StandardAnalyzer { lines: Vec::new() };
        assert(r.received() =~= Seq::<CommandOutputLineView>::empty());
        r
    }
}

impl Analyzer for StandardAnalyzer {
    fn start(&mut self)
        ensures
            final(self).received() == Seq::<CommandOutputLineView>::empty(),
    {
        self.lines.clear();
        assert(self.received() =~= Seq::<CommandOutputLineView>::empty());
    }

    fn receive_line(&mut self, line: CommandOutputLine, command_output: &mut CommandOutput)
        ensures
            final(self).received() == old(self).received().push(line@),
            final(command_output)@ == old(command_output)@.push(line@),
    {
        self.lines.push(line.clone());
        assert(self.received() =~= old(self).received().push(line@));
        command_output.push(line);
    }

    fn build_report(&mut self) -> (r: Result<Report, AnalysisError>)
        ensures
            final(self).received() == old(self).received(),
            match r {
                Ok(report) => {
                    &&& lines_view(report.lines@) == standard_report_lines(old(self).received())
                    &&& report.stats == stats_of(standard_report_lines(old(self).received()))
                    &&& report.suggest_backtrace == std_final(
                        standard_analyses(old(self).received()),
                    ).suggest_backtrace
                    &&& report.has_passed_tests == (std_final(
                        standard_analyses(old(self).received()),
                    ).passed_tests > 0)
                    &&& strings_view(report.failure_keys@) == failed_keys(
                        std_final(standard_analyses(old(self).received())).tests,
                    )
                },
                Err(_) => false,
            },
    {
        let a = StandardLineAnalyzer {};
        proof {
            lemma_standard_run(self.received());
        }
        Ok(build_report(self.lines.as_slice(), a))
    }
}

} // verus!
