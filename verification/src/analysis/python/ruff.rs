//! An analyzer for ruff ( https://docs.astral.sh/ruff/ )
use vstd::prelude::*;
use crate::analysis::analyzer::{AnalysisError, Analyzer};
use crate::analysis::item_accumulator::{
    acc_empty,
    acc_lines,
    acc_push,
    acc_start,
    AccView,
    ItemAccumulator,
};
use crate::analysis::line_type::{Kind, LineType};
use crate::burp::{error_line_ts, location_line, location_line_view, title_line_view};
use crate::command_output::{output_lines_view, CommandOutput, CommandOutputLine, CommandOutputLineView};
use crate::report::{lines_view, stats_of, LineView, Report};
use crate::text::{is_number, is_number_exec, str_eq, to_chars};
use crate::tline::{clone_tstrings_from, is_blank_line, TLine, TStringView};
use crate::tty::CSI_BOLD_RED;

verus! {

/// The style of the path starting a ruff diagnostic
pub const CSI_RUFF_PATH: &'static str = "\u{1b}[1m";

/// The style of the colons of a ruff diagnostic
pub const CSI_RUFF_COLON: &'static str = "\u{1b}[36m";

/// The line is like "src/main.py:12:5: E501 Line too long", styled: the
/// path, line, column and message are in strings 0, 2, 4 and from 7 on
pub open spec fn is_ruff_location_title(l: Seq<TStringView>) -> bool {
    &&& l.len() >= 8
    &&& l[0].csi == CSI_RUFF_PATH@
    &&& l[1].csi == CSI_RUFF_COLON@
    &&& l[1].raw == ":"@
    &&& l[2].csi.len() == 0
    &&& is_number(l[2].raw)
    &&& l[3].csi == CSI_RUFF_COLON@
    &&& l[3].raw == ":"@
    &&& l[4].csi.len() == 0
    &&& is_number(l[4].raw)
    &&& l[5].csi == CSI_RUFF_COLON@
    &&& l[5].raw == ":"@
    &&& l[6].csi.len() == 0
    &&& l[6].raw == " "@
}

/// Whether the line is a ruff diagnostic
fn ruff_location_title_exec(content: &TLine) -> (r: bool)
    ensures
        r == is_ruff_location_title(content@),
{
    let t = content.strings.as_slice();
    if t.len() < 8 {
        return false;
    }
    assert(forall|i: int| 0 <= i < 8 ==> content@[i] == #[trigger] t@[i]@);
    str_eq(t[0].csi.as_str(), CSI_RUFF_PATH) && str_eq(t[1].csi.as_str(), CSI_RUFF_COLON) && str_eq(
        t[1].raw.as_str(),
        ":",
    ) && t[2].is_unstyled() && is_number_str(t[2].raw.as_str()) && str_eq(
        t[3].csi.as_str(),
        CSI_RUFF_COLON,
    ) && str_eq(t[3].raw.as_str(), ":") && t[4].is_unstyled() && is_number_str(
        t[4].raw.as_str(),
    ) && str_eq(t[5].csi.as_str(), CSI_RUFF_COLON) && str_eq(t[5].raw.as_str(), ":")
        && t[6].is_unstyled() && str_eq(t[6].raw.as_str(), " ")
}

/// Whether the string is a nonempty run of digits
fn is_number_str(s: &str) -> (r: bool)
    ensures
        r == is_number(s@),
{
    let c = to_chars(s);
    assert(c@.subrange(0, c@.len() as int) =~= c@);
    is_number_exec(c.as_slice(), 0, c.len())
}

/// The step of the report building for one line: a diagnostic gives an
/// error item with its location, other lines go to the current item, blank
/// lines being deduplicated
pub open spec fn ruff_step(st: (AccView, bool), line: CommandOutputLineView) -> (AccView, bool) {
    let l = line.content;
    if is_ruff_location_title(l) {
        (
            acc_push(
                acc_push(
                    acc_start(st.0, Kind::Error),
                    LineType::Title(Kind::Error),
                    title_line_view(CSI_BOLD_RED@, "error"@, l.skip(7)),
                ),
                LineType::Location,
                location_line_view(l[0].raw + ":"@ + l[2].raw + ":"@ + l[4].raw),
            ),
            false,
        )
    } else {
        let blank = is_blank_line(l);
        (
            if blank && st.1 {
                st.0
            } else {
                acc_push(st.0, LineType::Normal, l)
            },
            blank,
        )
    }
}

/// The lines of the report of a ruff output
pub open spec fn ruff_report_lines(lines: Seq<CommandOutputLineView>) -> Seq<LineView> {
    acc_lines(
        lines.fold_left(
            (acc_empty(), true),
            |st: (AccView, bool), line: CommandOutputLineView| ruff_step(st, line),
        ).0,
    )
}

/// Build a report from the output of ruff
pub fn build_report(cmd_lines: &[CommandOutputLine]) -> (r: Report)
    ensures
        lines_view(r.lines@) == ruff_report_lines(output_lines_view(cmd_lines@)),
        r.stats == stats_of(ruff_report_lines(output_lines_view(cmd_lines@))),
        !r.suggest_backtrace,
        r.output@.len() == 0,
        r.failure_keys@.len() == 0,
        !r.has_passed_tests,
{
    let ghost lv = output_lines_view(cmd_lines@);
    let mut items = ItemAccumulator::new();
    let mut last_is_blank = true;
    let n = cmd_lines.len();
    let mut i: usize = 0;
    while i < n
        invariant
            i <= n == cmd_lines@.len() == lv.len(),
            lv == output_lines_view(cmd_lines@),
            (items@, last_is_blank) == lv.take(i as int).fold_left(
                (acc_empty(), true),
                |st: (AccView, bool), line: CommandOutputLineView| ruff_step(st, line),
            ),
        decreases n - i,
    {
        let cmd_line = &cmd_lines[i];
        let content = &cmd_line.content;
        proof {
            assert(lv.take(i + 1).drop_last() =~= lv.take(i as int));
            assert(lv[i as int] == cmd_line@);
        }
        if ruff_location_title_exec(content) {
            let t = content.strings.as_slice();
            assert(forall|k: int| 0 <= k < 8 ==> content@[k] == #[trigger] t@[k]@);
            let message = clone_tstrings_from(t, 7);
            items.push_error_title(error_line_ts(message.as_slice()));
            let mut location = t[0].raw.clone();
            location.append(":");
            location.append(t[2].raw.as_str());
            location.append(":");
            location.append(t[4].raw.as_str());
            items.push_line(LineType::Location, location_line(location.as_str()));
            last_is_blank = false;
        } else {
            let is_blank = content.is_blank();
            if !(is_blank && last_is_blank) {
                items.push_line(LineType::Normal, content.clone());
            }
            last_is_blank = is_blank;
        }
        i += 1;
    }
    assert(lv.take(n as int) =~= lv);
    items.report()
}

/// The analyzer of ruff outputs
#[derive(Debug)]
pub struct RuffAnalyzer {
    lines: Vec<CommandOutputLine>,
}

impl RuffAnalyzer {
    /// The lines received since the start
    pub closed spec fn received(&self) -> Seq<CommandOutputLineView> {
        output_lines_view(self.lines@)
    }
}

impl Default for RuffAnalyzer {
    fn default() -> (r: Self)
        ensures
            r.received() == Seq::<CommandOutputLineView>::empty(),
    {
        let r = RuffAnalyzer { lines: Vec::new() };
        assert(r.received() =~= Seq::<CommandOutputLineView>::empty());
        r
    }
}

impl Analyzer for RuffAnalyzer {
    fn start(&mut self)
        ensures
            final(self).received() == Seq::<CommandOutputLineView>::empty(),
    {
        self.lines.clear();
        assert(self.received() =~= Seq::<CommandOutputLineView>::empty());
    }

    fn receive_line(&mut self, line: CommandOutputLine, command_output: &mut CommandOutput)
        ensures
            final(self).received() == old(self).received().push(line@),
            final(command_output)@ == old(command_output)@.push(line@),
    {
        self.lines.push(line.clone());
        assert(self.received() =~= old(self).received().push(line@));
        command_output.push(line);
    }

    fn build_report(&mut self) -> (r: Result<Report, AnalysisError>)
        ensures
            final(self).received() == old(self).received(),
            match r {
                Ok(report) => lines_view(report.lines@) == ruff_report_lines(old(self).received())
                    && report.stats == stats_of(ruff_report_lines(old(self).received()))
                    && !report.suggest_backtrace && !report.has_passed_tests
                    && report.failure_keys@.len() == 0,
                Err(_) => false,
            },
    {
        Ok(build_report(self.lines.as_slice()))
    }
}

} // verus!
