//! An analyzer for the Go compiler `go`
use vstd::prelude::*;
use crate::analysis::analyzer::{AnalysisError, Analyzer};
use crate::analysis::item_accumulator::{
    acc_empty,
    acc_lines,
    acc_push,
    acc_start,
    AccView,
    ItemAccumulator,
};
use crate::analysis::line_type::{Kind, LineType};
use crate::analysis::patterns::{lemma_loc_unique, loc_at, loc_exec};
use crate::burp::{error_line, error_line_view, location_line, location_line_view};
use crate::command_output::{output_lines_view, CommandOutput, CommandOutputLine, CommandOutputLineView};
use crate::report::{lines_view, stats_of, LineView, Report};
use crate::text::{no_lf, no_lf_exec, string_of, to_chars};
use crate::tline::{is_blank_line, raw_of};

verus! {

/// There's a location from `s0` to `c3` followed by ": " and the rest of
/// the line (the code of the error), like "main.go:12:5: undefined: x"
pub open spec fn go_match(s: Seq<char>, s0: int, c3: int) -> bool {
    &&& loc_at(s, s0, c3)
    &&& c3 + 2 < s.len()
    &&& s[c3] == ':'
    &&& s[c3 + 1] == ' '
    &&& no_lf(s.skip(c3 + 2))
}

/// The first match starts at `s0`
pub open spec fn go_first_match(s: Seq<char>, s0: int, c3: int) -> bool {
    go_match(s, s0, c3) && forall|j: int, c: int| 0 <= j < s0 ==> !#[trigger] go_match(s, j, c)
}

/// The location and the code of an error line
pub open spec fn go_location_code(s: Seq<char>) -> Option<(Seq<char>, Seq<char>)> {
    if exists|s0: int, c3: int| go_first_match(s, s0, c3) {
        let (s0, c3) = choose|s0: int, c3: int| go_first_match(s, s0, c3);
        Some((s.subrange(s0, c3), s.skip(c3 + 2)))
    } else {
        None
    }
}

proof fn lemma_go_location_code(s: Seq<char>, s0: int, c3: int)
    requires
        go_first_match(s, s0, c3),
    ensures
        go_location_code(s) == Some((s.subrange(s0, c3), s.skip(c3 + 2))),
{
    let (a, c) = choose|a: int, c: int| go_first_match(s, a, c);
    assert(go_first_match(s, a, c));
    if a < s0 {
        assert(!go_match(s, a, c));
    } else if s0 < a {
        assert(!go_match(s, s0, c3));
    }
    lemma_loc_unique(s, s0, c3, c);
}

/// The location and the code of an error line
fn go_location_code_exec(s: &[char]) -> (r: Option<(String, String)>)
    ensures
        match r {
            Some((loc, code)) => go_location_code(s@) == Some((loc@, code@)),
            None => go_location_code(s@) is None,
        },
{
    let n = s.len();
    let mut s0: usize = 0;
    while s0 < n
        invariant
            s0 <= n == s@.len(),
            forall|j: int, c: int| 0 <= j < s0 ==> !#[trigger] go_match(s@, j, c),
        decreases n - s0,
    {
        if let Some(c3) = loc_exec(s, s0) {
            if n - c3 > 2 && s[c3] == ':' && s[c3 + 1] == ' ' && no_lf_exec(s, c3 + 2, n) {
                proof {
                    assert(s@.skip(c3 + 2) =~= s@.subrange(c3 + 2, n as int));
                    lemma_go_location_code(s@, s0 as int, c3 as int);
                    assert(s@.subrange(c3 + 2, n as int) == s@.skip(c3 + 2));
                }
                return Some((string_of(s, s0, c3), string_of(s, c3 + 2, n)));
            }
            proof {
                if n - c3 > 2 {
                    assert(s@.skip(c3 + 2) =~= s@.subrange(c3 + 2, n as int));
                }
                assert forall|c: int| !go_match(s@, s0 as int, c) by {
                    if go_match(s@, s0 as int, c) {
                        lemma_loc_unique(s@, s0 as int, c3 as int, c);
                    }
                }
            }
        }
        s0 += 1;
    }
    assert forall|a: int, c: int| !go_first_match(s@, a, c) by {
        if go_first_match(s@, a, c) {
            assert(!go_match(s@, a, c));
        }
    }
    None
}

/// The step of the report building for one line: an error line gives an
/// error item with its location, other lines go to the current item, blank
/// lines being deduplicated
pub open spec fn go_step(st: (AccView, bool), line: CommandOutputLineView) -> (AccView, bool) {
    match go_location_code(raw_of(line.content)) {
        Some((loc, code)) => (
            acc_push(
                acc_push(
                    acc_start(st.0, Kind::Error),
                    LineType::Title(Kind::Error),
                    error_line_view(code),
                ),
                LineType::Location,
                location_line_view(loc),
            ),
            false,
        ),
        None => {
            let blank = is_blank_line(line.content);
            (
                if blank && st.1 {
                    st.0
                } else {
                    acc_push(st.0, LineType::Normal, line.content)
                },
                blank,
            )
        },
    }
}

/// The lines of the report of a go output
pub open spec fn go_report_lines(lines: Seq<CommandOutputLineView>) -> Seq<LineView> {
    acc_lines(
        lines.fold_left(
            (acc_empty(), true),
            |st: (AccView, bool), line: CommandOutputLineView| go_step(st, line),
        ).0,
    )
}

/// Build a report from the output of go
pub fn build_report(cmd_lines: &[CommandOutputLine]) -> (r: Report)
    ensures
        lines_view(r.lines@) == go_report_lines(output_lines_view(cmd_lines@)),
        r.stats == stats_of(go_report_lines(output_lines_view(cmd_lines@))),
        !r.suggest_backtrace,
        r.output@.len() == 0,
        r.failure_keys@.len() == 0,
        !r.has_passed_tests,
{
    let ghost lv = output_lines_view(cmd_lines@);
    let mut items = ItemAccumulator::new();
    let mut last_is_blank = true;
    let n = cmd_lines.len();
    let mut i: usize = 0;
    while i < n
        invariant
            i <= n == cmd_lines@.len() == lv.len(),
            lv == output_lines_view(cmd_lines@),
            (items@, last_is_blank) == lv.take(i as int).fold_left(
                (acc_empty(), true),
                |st: (AccView, bool), line: CommandOutputLineView| go_step(st, line),
            ),
        decreases n - i,
    {
        let cmd_line = &cmd_lines[i];
        proof {
            assert(lv.take(i + 1).drop_last() =~= lv.take(i as int));
            assert(lv[i as int] == cmd_line@);
        }
        let raw = to_chars(cmd_line.content.to_raw().as_str());
        match go_location_code_exec(raw.as_slice()) {
            Some((location, code)) => {
                items.push_error_title(error_line(code.as_str()));
                items.push_line(LineType::Location, location_line(location.as_str()));
                last_is_blank = false;
            },
            None => {
                let is_blank = cmd_line.content.is_blank();
                if !(is_blank && last_is_blank) {
                    items.push_line(LineType::Normal, cmd_line.content.clone());
                }
                last_is_blank = is_blank;
            },
        }
        i += 1;
    }
    assert(lv.take(n as int) =~= lv);
    items.report()
}

/// The analyzer of go outputs
#[derive(Debug)]
pub struct GoAnalyzer {
    lines: Vec<CommandOutputLine>,
}

impl GoAnalyzer {
    /// The lines received since the start
    pub closed spec fn received(&self) -> Seq<CommandOutputLineView> {
        output_lines_view(self.lines@)
    }
}

impl Default for GoAnalyzer {
    fn default() -> (r: Self)
        ensures
            r.received() == Seq::<CommandOutputLineView>::empty(),
    {
        let r = GoAnalyzer { lines: Vec::new() };
        assert(r.received() =~= Seq::<CommandOutputLineView>::empty());
        r
    }
}

impl Analyzer for GoAnalyzer {
    fn start(&mut self)
        ensures
            final(self).received() == Seq::<CommandOutputLineView>::empty(),
    {
        self.lines.clear();
        assert(self.received() =~= Seq::<CommandOutputLineView>::empty());
    }

    fn receive_line(&mut self, line: CommandOutputLine, command_output: &mut CommandOutput)
        ensures
            final(self).received() == old(self).received().push(line@),
            final(command_output)@ == old(command_output)@.push(line@),
    {
        self.lines.push(line.clone());
        assert(self.received() =~= old(self).received().push(line@));
        command_output.push(line);
    }

    fn build_report(&mut self) -> (r: Result<Report, AnalysisError>)
        ensures
            final(self).received() == old(self).received(),
            match r {
                Ok(report) => lines_view(report.lines@) == go_report_lines(old(self).received())
                    && report.stats == stats_of(go_report_lines(old(self).received()))
                    && !report.suggest_backtrace && !report.has_passed_tests
                    && report.failure_keys@.len() == 0,
                Err(_) => false,
            },
    {
        Ok(build_report(self.lines.as_slice()))
    }
}

} // verus!
