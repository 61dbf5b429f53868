//! Analyzers classifying the lines of a command output one after the other.
use vstd::prelude::*;
use crate::analysis::line_analysis::{LineAnalysis, LineAnalysisView};
use crate::command_output::{CommandOutputLine, CommandOutputLineView};
use crate::tline::TStringView;

verus! {

/// An analyzer classifying each line, possibly remembering what it saw (its
/// view is what it remembers)
pub trait LineAnalyzer: View + Sized {
    /// The analysis of the line by an analyzer in the given state
    spec fn analysis_of(state: Self::V, line: CommandOutputLineView) -> LineAnalysisView;

    /// The state of the analyzer after it analyzed the line
    spec fn after(state: Self::V, line: CommandOutputLineView) -> Self::V;

    fn analyze_line(&mut self, line: &CommandOutputLine) -> (r: LineAnalysis)
        ensures
            r@ == Self::analysis_of(old(self)@, line@),
            final(self)@ == Self::after(old(self)@, line@),
    ;
}

/// The state of the analyzer after the lines, and the analyses of the lines
/// with their content
pub open spec fn analyze_run<L: LineAnalyzer>(state: L::V, lines: Seq<CommandOutputLineView>) -> (
    L::V,
    Seq<(LineAnalysisView, Seq<TStringView>)>,
)
    decreases lines.len(),
{
    if lines.len() == 0 {
        (state, Seq::empty())
    } else {
        let (s, acc) = analyze_run::<L>(state, lines.drop_last());
        (
            L::after(s, lines.last()),
            acc.push((L::analysis_of(s, lines.last()), lines.last().content)),
        )
    }
}

} // verus!
