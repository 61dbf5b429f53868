//! An analyzer for Python unittest
use vstd::prelude::*;
use crate::analysis::analyzer::{AnalysisError, Analyzer};
use crate::analysis::item_accumulator::{
    acc_empty,
    acc_lines,
    acc_push,
    acc_start,
    AccView,
    ItemAccumulator,
};
use crate::analysis::line_analysis::{
    analysis_of_type,
    analysis_with_key,
    LineAnalysis,
    LineAnalysisView,
};
use crate::analysis::line_type::{Kind, LineType};
use crate::analysis::patterns::{digits_end, digits_end_spec, lemma_digits_end_spec};
use crate::burp::{location_line, location_line_view};
use crate::command_output::{output_lines_view, CommandOutput, CommandOutputLine, CommandOutputLineView};
use crate::report::{lines_view, stats_of, LineView, Report};
use crate::text::{is_digit, is_ws, is_ws_char, leading_ws, leading_ws_count, lemma_leading_ws, no_lf, occurs_at, occurs_at_exec, string_of, to_chars};
use crate::tline::unstyled_text;

verus! {

/// The parts of a line like "FAIL: test_x (tests.TestY.test_x)": the test
/// name starts at `p1`, the white space after it at `p2`, the parenthesis
/// is at `p3` and the closing one at `r`
pub open spec fn fail_split(s: Seq<char>, p1: int, p2: int, p3: int, r: int) -> bool {
    &&& occurs_at(s, "FAIL:"@, 0)
    &&& 5 < p1 < p2 < p3
    &&& p3 + 1 < r < s.len()
    &&& forall|k: int| 5 <= k < p1 ==> #[trigger] is_ws(s[k])
    &&& forall|k: int| p1 <= k < p2 ==> !#[trigger] is_ws(s[k])
    &&& forall|k: int| p2 <= k < p3 ==> #[trigger] is_ws(s[k])
    &&& s[p3] == '('
    &&& s[r] == ')'
    &&& no_lf(s.subrange(p3 + 1, r))
}

/// The split with the last possible closing parenthesis
pub open spec fn fail_max_split(s: Seq<char>, p1: int, p2: int, p3: int, r: int) -> bool {
    fail_split(s, p1, p2, p3, r) && forall|r2: int| r < r2 ==> !#[trigger] fail_split(s, p1, p2, p3, r2)
}

/// The key of a failed test: what's between the parentheses (up to the last
/// closing one)
pub open spec fn unittest_fail_key(s: Seq<char>) -> Option<Seq<char>> {
    if exists|p1: int, p2: int, p3: int, r: int| fail_max_split(s, p1, p2, p3, r) {
        let (p1, p2, p3, r) = choose|p1: int, p2: int, p3: int, r: int|
            fail_max_split(s, p1, p2, p3, r);
        Some(s.subrange(p3 + 1, r))
    } else {
        None
    }
}

proof fn lemma_fail_split_unique(
    s: Seq<char>,
    p1: int,
    p2: int,
    p3: int,
    r: int,
    q1: int,
    q2: int,
    q3: int,
    t: int,
)
    requires
        fail_split(s, p1, p2, p3, r),
        fail_split(s, q1, q2, q3, t),
    ensures
        p1 == q1,
        p2 == q2,
        p3 == q3,
{
    if q1 < p1 {
        assert(is_ws(s[q1]));
    } else if p1 < q1 {
        assert(is_ws(s[p1]));
    }
    if q2 < p2 {
        assert(!is_ws(s[q2]));
    } else if p2 < q2 {
        assert(!is_ws(s[p2]));
    }
    if q3 < p3 {
        assert(s[p3] == '(');
        assert(is_ws(s[q3]));
        assert(!is_ws('(')) by {
            assert(('(' as u32) == 0x28);
        }
    } else if p3 < q3 {
        assert(is_ws(s[p3]));
        assert(!is_ws('(')) by {
            assert(('(' as u32) == 0x28);
        }
    }
}

proof fn lemma_unittest_fail_key(s: Seq<char>, p1: int, p2: int, p3: int, r: int)
    requires
        fail_max_split(s, p1, p2, p3, r),
    ensures
        unittest_fail_key(s) == Some(s.subrange(p3 + 1, r)),
{
    let (a1, a2, a3, b) = choose|a1: int, a2: int, a3: int, b: int| fail_max_split(s, a1, a2, a3, b);
    assert(fail_max_split(s, a1, a2, a3, b));
    lemma_fail_split_unique(s, p1, p2, p3, r, a1, a2, a3, b);
    if b < r {
        assert(!fail_split(s, a1, a2, a3, r));
    } else if r < b {
        assert(!fail_split(s, p1, p2, p3, b));
    }
}

/// The key of a failed test
fn unittest_fail_key_exec(s: &[char]) -> (r: Option<String>)
    ensures
        match r {
            Some(k) => unittest_fail_key(s@) == Some(k@),
            None => unittest_fail_key(s@) is None,
        },
{
    let n = s.len();
    proof {
        reveal_strlit("FAIL:");
    }
    let fail = to_chars("FAIL:");
    if !occurs_at_exec(s, fail.as_slice(), 0) {
        assert forall|p1: int, p2: int, p3: int, r: int| !fail_max_split(s@, p1, p2, p3, r) by {}
        return None;
    }
    let p1 = 5 + leading_ws(s, 5, n);
    proof {
        lemma_leading_ws(s@.subrange(5, n as int));
    }
    let mut p2 = p1;
    while p2 < n && !is_ws_char(s[p2])
        invariant
            p1 <= p2 <= n == s@.len(),
            forall|k: int| p1 <= k < p2 ==> !#[trigger] is_ws(s@[k]),
        decreases n - p2,
    {
        p2 += 1;
    }
    let p3 = p2 + leading_ws(s, p2, n);
    proof {
        lemma_leading_ws(s@.subrange(p2 as int, n as int));
        assert forall|k: int| 5 <= k < p1 implies #[trigger] is_ws(s@[k]) by {
            assert(s@.subrange(5, n as int)[k - 5] == s@[k]);
        }
        assert forall|k: int| p2 <= k < p3 implies #[trigger] is_ws(s@[k]) by {
            assert(s@.subrange(p2 as int, n as int)[k - p2] == s@[k]);
        }
        if p1 < n {
            assert(s@.subrange(5, n as int)[p1 - 5] == s@[p1 as int]);
        }
        if p3 < n {
            assert(s@.subrange(p2 as int, n as int)[p3 - p2] == s@[p3 as int]);
        }
    }
    if p1 == 5 || p2 == p1 || p3 == p2 || p3 >= n || s[p3] != '(' {
        assert forall|a1: int, a2: int, a3: int, b: int| !fail_max_split(s@, a1, a2, a3, b) by {
            if fail_split(s@, a1, a2, a3, b) {
                if a1 < p1 {
                    assert(is_ws(s@[a1]));
                } else if p1 < a1 {
                    assert(is_ws(s@[p1 as int]));
                }
                if a2 < p2 {
                    assert(!is_ws(s@[a2]));
                } else if p2 < a2 {
                    assert(!is_ws(s@[p2 as int]));
                }
                assert(!is_ws('(')) by {
                    assert(('(' as u32) == 0x28);
                }
                if a3 < p3 {
                    assert(is_ws(s@[a3]));
                } else if p3 < a3 {
                    assert(is_ws(s@[p3 as int]));
                }
            }
        }
        return None;
    }
    // the end of the key is the last closing parenthesis before any line feed
    let mut lf = p3 + 1;
    while lf < n && s[lf] != '\n'
        invariant
            p3 < lf <= n == s@.len(),
            forall|k: int| p3 < k < lf ==> #[trigger] s@[k] != '\n',
        decreases n - lf,
    {
        lf += 1;
    }
    let mut r = lf;
    while r - p3 > 2 && s[r - 1] != ')'
        invariant
            p3 + 1 <= r <= lf,
            lf <= n == s@.len(),
            forall|k: int| r <= k < lf ==> #[trigger] s@[k] != ')',
        decreases r,
    {
        r -= 1;
    }
    proof {
        assert forall|a1: int, a2: int, a3: int, b: int| fail_split(s@, a1, a2, a3, b) implies a1
            == p1 && a2 == p2 && a3 == p3 && b < lf by {
            if a1 < p1 {
                assert(is_ws(s@[a1]));
            } else if p1 < a1 {
                assert(is_ws(s@[p1 as int]));
            }
            if a2 < p2 {
                assert(!is_ws(s@[a2]));
            } else if p2 < a2 {
                assert(!is_ws(s@[p2 as int]));
            }
            assert(!is_ws('(')) by {
                assert(('(' as u32) == 0x28);
            }
            if a3 < p3 {
                assert(is_ws(s@[a3]));
            } else if p3 < a3 {
                assert(is_ws(s@[p3 as int]));
            }
            if b >= lf {
                assert(crate::text::is_any(s@.subrange(p3 + 1, b)[lf - p3 - 1]));
            }
        }
    }
    if r - p3 <= 2 {
        assert forall|a1: int, a2: int, a3: int, b: int| !fail_max_split(s@, a1, a2, a3, b) by {
            if fail_split(s@, a1, a2, a3, b) {
                assert(s@[b] == ')');
            }
        }
        return None;
    }
    let r = r - 1;
    proof {
        assert forall|i: int| 0 <= i < s@.subrange(p3 + 1, r as int).len() implies #[trigger]
            crate::text::is_any(s@.subrange(p3 + 1, r as int)[i]) by {
            assert(s@.subrange(p3 + 1, r as int)[i] == s@[p3 + 1 + i]);
        }
        assert(fail_split(s@, p1 as int, p2 as int, p3 as int, r as int));
        assert forall|r2: int| r < r2 implies !#[trigger] fail_split(s@, p1 as int, p2 as int, p3 as int, r2) by {
            if fail_split(s@, p1 as int, p2 as int, p3 as int, r2) {
                assert(s@[r2] == ')');
            }
        }
        lemma_unittest_fail_key(s@, p1 as int, p2 as int, p3 as int, r as int);
    }
    Some(string_of(s, p3 + 1, r))
}

/// The line is like `  File "/home/me/test.py", line 7, in test_x`: after
/// indentation, `File "`, a path and `", line ` (at `q`) with a digit
pub open spec fn file_split(s: Seq<char>, q: int) -> bool {
    let p = leading_ws_count(s) as int;
    &&& p >= 1
    &&& occurs_at(s, "File \""@, p)
    &&& p + 6 < q
    &&& no_lf(s.subrange(p + 6, q))
    &&& occurs_at(s, "\", line "@, q)
    &&& q + 8 < s.len()
    &&& is_digit(s[q + 8])
}

/// The line tells the file and line of a failure
pub open spec fn is_file_line(s: Seq<char>) -> bool {
    exists|q: int| file_split(s, q)
}

/// The path and line number of a line like `  File "/a.py", line 7`: the
/// path up to the last `", line ` followed by a digit, and all the digits
pub open spec fn unittest_location(s: Seq<char>) -> Option<(Seq<char>, Seq<char>)> {
    if exists|q: int| file_split(s, q) {
        let q = choose|q: int| file_split(s, q) && forall|q2: int| q < q2 ==> !#[trigger] file_split(s, q2);
        let p = leading_ws_count(s) as int;
        Some((s.subrange(p + 6, q), s.subrange(q + 8, digits_end_spec(s, q + 8))))
    } else {
        None
    }
}

proof fn lemma_unittest_location(s: Seq<char>, q: int)
    requires
        file_split(s, q),
        forall|q2: int| q < q2 ==> !#[trigger] file_split(s, q2),
    ensures
        unittest_location(s) == Some(
            (
                s.subrange(leading_ws_count(s) + 6int, q),
                s.subrange(q + 8, digits_end_spec(s, q + 8)),
            ),
        ),
{
    let c = choose|c: int|
        file_split(s, c) && forall|q2: int| c < q2 ==> !#[trigger] file_split(s, q2);
    assert(file_split(s, q) && forall|q2: int| q < q2 ==> !#[trigger] file_split(s, q2));
    if c < q {
        assert(!file_split(s, q));
    } else if q < c {
        assert(!file_split(s, c));
    }
}

/// The position of the last `", line ` of a line telling the file of a
/// failure
fn last_file_split(s: &[char]) -> (r: Option<usize>)
    ensures
        match r {
            Some(q) => q + 8 < s@.len() && file_split(s@, q as int) && forall|q2: int|
                q < q2 ==> !#[trigger] file_split(s@, q2),
            None => forall|q2: int| !#[trigger] file_split(s@, q2),
        },
{
    proof {
        reveal_strlit("File \"");
        reveal_strlit("\", line ");
        lemma_leading_ws(s@);
    }
    let n = s.len();
    let p = leading_ws(s, 0, n);
    assert(s@.subrange(0, n as int) =~= s@);
    let file = to_chars("File \"");
    let line = to_chars("\", line ");
    if p == 0 || !occurs_at_exec(s, file.as_slice(), p) {
        assert forall|q: int| !file_split(s@, q) by {}
        return None;
    }
    // the first line feed after the start of the path
    let mut lf = p + 6;
    while lf < n && s[lf] != '\n'
        invariant
            p + 6 <= lf <= n == s@.len(),
            forall|k: int| p + 6 <= k < lf ==> #[trigger] s@[k] != '\n',
        decreases n - lf,
    {
        lf += 1;
    }
    // the last `", line ` followed by a digit, before the line feed
    assert(p == leading_ws_count(s@));
    assert forall|q2: int| lf <= q2 implies !#[trigger] file_split(s@, q2) by {
        if file_split(s@, q2) && lf < n {
            if q2 == lf {
                assert(s@.subrange(q2, q2 + 8)[0] == s@[q2]);
                assert("\", line "@[0] == '"');
            } else {
                assert(crate::text::is_any(s@.subrange(p + 6, q2)[lf - p - 6]));
            }
        }
    }
    let mut q = lf;
    loop
        invariant
            p + 6 <= q <= lf <= n == s@.len(),
            p == leading_ws_count(s@),
            p >= 1,
            occurs_at(s@, "File \""@, p as int),
            line@ == "\", line "@,
            forall|k: int| p + 6 <= k < lf ==> #[trigger] s@[k] != '\n',
            forall|q2: int| q <= q2 ==> !#[trigger] file_split(s@, q2),
        decreases q,
    {
        if q - p <= 7 {
            assert forall|q2: int| !#[trigger] file_split(s@, q2) by {}
            return None;
        }
        q -= 1;
        if n - q > 8 && occurs_at_exec(s, line.as_slice(), q) && crate::text::is_digit_char(s[q + 8]) {
            assert forall|i: int| 0 <= i < s@.subrange(p + 6, q as int).len() implies #[trigger]
                crate::text::is_any(s@.subrange(p + 6, q as int)[i]) by {
                assert(s@.subrange(p + 6, q as int)[i] == s@[p + 6 + i]);
            }
            assert(file_split(s@, q as int));
            return Some(q);
        }
    }
}

/// The path and line number of a line telling the file of a failure
fn unittest_location_exec(s: &[char]) -> (r: Option<(String, String)>)
    ensures
        match r {
            Some((path, line)) => unittest_location(s@) == Some((path@, line@)),
            None => unittest_location(s@) is None,
        },
{
    match last_file_split(s) {
        None => None,
        Some(q) => {
            let n = s.len();
            let p = leading_ws(s, 0, n);
            assert(s@.subrange(0, n as int) =~= s@);
            let e = digits_end(s, q + 8);
            proof {
                lemma_digits_end_spec(s@, q + 8, e as int);
                lemma_unittest_location(s@, q as int);
            }
            Some((string_of(s, p + 6, q), string_of(s, q + 8, e)))
        },
    }
}

/// `s` is made of at least 50 times the character `c`
pub open spec fn is_rule(s: Seq<char>, c: char) -> bool {
    s.len() >= 50 && forall|i: int| 0 <= i < s.len() ==> #[trigger] s[i] == c
}

/// Whether `s` is made of at least 50 times the character `c`
fn is_rule_exec(s: &[char], c: char) -> (r: bool)
    ensures
        r == is_rule(s@, c),
{
    if s.len() < 50 {
        return false;
    }
    let mut i: usize = 0;
    while i < s.len()
        invariant
            i <= s@.len(),
            forall|j: int| 0 <= j < i ==> #[trigger] s@[j] == c,
        decreases s@.len() - i,
    {
        if s[i] != c {
            return false;
        }
        i += 1;
    }
    true
}

/// The analysis of a line of unittest output (which isn't expected to be
/// styled)
pub open spec fn unittest_analysis(l: Seq<crate::tline::TStringView>) -> LineAnalysisView {
    match unstyled_text(l) {
        None => analysis_of_type(LineType::Normal),
        Some(t) => match unittest_fail_key(t) {
            Some(k) => analysis_with_key(LineType::Title(Kind::TestFail), k),
            None => if is_file_line(t) {
                analysis_of_type(LineType::Location)
            } else if is_rule(t, '=') || is_rule(t, '-') || occurs_at(
                t,
                "Traceback (most recent call last)"@,
                0,
            ) {
                analysis_of_type(LineType::Garbage)
            } else {
                analysis_of_type(LineType::Normal)
            },
        },
    }
}

/// The analysis of a line of unittest output
pub fn analyze_line(cmd_line: &CommandOutputLine) -> (r: LineAnalysis)
    ensures
        r@ == unittest_analysis(cmd_line@.content),
{
    let Some(content) = cmd_line.content.if_unstyled() else {
        return LineAnalysis::normal();
    };
    let t = to_chars(content);
    let t = t.as_slice();
    if let Some(key) = unittest_fail_key_exec(t) {
        return LineAnalysis::fail(key);
    }
    if last_file_split(t).is_some() {
        return LineAnalysis::of_type(LineType::Location);
    }
    if is_rule_exec(t, '=') || is_rule_exec(t, '-') || occurs_at_exec(
        t,
        to_chars("Traceback (most recent call last)").as_slice(),
        0,
    ) {
        return LineAnalysis::garbage();
    }
    LineAnalysis::normal()
}

/// The step of the report building for one line: the first location line
/// of an item is rewritten as a BURP location, garbage is dropped, the other
/// lines go to the current item
pub open spec fn unittest_step(st: (AccView, bool), line: CommandOutputLineView) -> (AccView, bool) {
    let lt = unittest_analysis(line.content).line_type;
    let l = line.content;
    if lt is Garbage {
        st
    } else if lt is Location && !st.1 && unstyled_text(l) is Some {
        match unittest_location(unstyled_text(l)->0) {
            Some((path, ln)) => (
                acc_push(st.0, LineType::Location, location_line_view(path + ":"@ + ln)),
                true,
            ),
            None => st,
        }
    } else {
        let (acc, written) = match lt {
            LineType::Title(kind) => (acc_start(st.0, kind), false),
            _ => (st.0, st.1),
        };
        (acc_push(acc, lt, l), written)
    }
}

/// The lines of the report of a unittest output
pub open spec fn unittest_report_lines(lines: Seq<CommandOutputLineView>) -> Seq<LineView> {
    acc_lines(
        lines.fold_left(
            (acc_empty(), false),
            |st: (AccView, bool), line: CommandOutputLineView| unittest_step(st, line),
        ).0,
    )
}

/// The step of the report building for one line
fn unittest_step_exec(
    items: &mut ItemAccumulator,
    item_location_written: &mut bool,
    cmd_line: &CommandOutputLine,
)
    ensures
        (final(items)@, *final(item_location_written)) == unittest_step(
            (old(items)@, *old(item_location_written)),
            cmd_line@,
        ),
{
    let line_type = analyze_line(cmd_line).line_type;
    let mut done = false;
    match line_type {
        LineType::Garbage => {
            done = true;
        },
        LineType::Title(kind) => {
            items.start_item(kind);
            *item_location_written = false;
        },
        LineType::Location => {
            if !*item_location_written {
                if let Some(content) = cmd_line.content.if_unstyled() {
                    let t = to_chars(content);
                    if let Some((path, line)) = unittest_location_exec(t.as_slice()) {
                        let mut location = path;
                        location.append(":");
                        location.append(line.as_str());
                        items.push_line(LineType::Location, location_line(location.as_str()));
                        *item_location_written = true;
                    }
                    done = true;
                }
            }
        },
        _ => {},
    }
    if !done {
        items.push_line(line_type, cmd_line.content.clone());
    }
}

/// Build a report from the output of Python unittest
pub fn build_report(cmd_lines: &[CommandOutputLine]) -> (r: Report)
    ensures
        lines_view(r.lines@) == unittest_report_lines(output_lines_view(cmd_lines@)),
        r.stats == stats_of(unittest_report_lines(output_lines_view(cmd_lines@))),
        !r.suggest_backtrace,
        r.output@.len() == 0,
        r.failure_keys@.len() == 0,
        !r.has_passed_tests,
{
    let ghost lv = output_lines_view(cmd_lines@);
    let mut items = ItemAccumulator::new();
    let mut item_location_written = false;
    let n = cmd_lines.len();
    let mut i: usize = 0;
    while i < n
        invariant
            i <= n == cmd_lines@.len() == lv.len(),
            lv == output_lines_view(cmd_lines@),
            (items@, item_location_written) == lv.take(i as int).fold_left(
                (acc_empty(), false),
                |st: (AccView, bool), line: CommandOutputLineView| unittest_step(st, line),
            ),
        decreases n - i,
    {
        let cmd_line = &cmd_lines[i];
        proof {
            assert(lv.take(i + 1).drop_last() =~= lv.take(i as int));
            assert(lv[i as int] == cmd_line@);
        }
        unittest_step_exec(&mut items, &mut item_location_written, cmd_line);
        i += 1;
    }
    assert(lv.take(n as int) =~= lv);
    items.report()
}

/// The analyzer of Python unittest outputs
#[derive(Debug)]
pub struct UnittestAnalyzer {
    lines: Vec<CommandOutputLine>,
}

impl UnittestAnalyzer {
    /// The lines received since the start
    pub closed spec fn received(&self) -> Seq<CommandOutputLineView> {
        output_lines_view(self.lines@)
    }
}

impl Default for UnittestAnalyzer {
    fn default() -> (r: Self)
        ensures
            r.received() == Seq::<CommandOutputLineView>::empty(),
    {
        let r = UnittestAnalyzer { lines: Vec::new() };
        assert(r.received() =~= Seq::<CommandOutputLineView>::empty());
        r
    }
}

impl Analyzer for UnittestAnalyzer {
    fn start(&mut self)
        ensures
            final(self).received() == Seq::<CommandOutputLineView>::empty(),
    {
        self.lines.clear();
        assert(self.received() =~= Seq::<CommandOutputLineView>::empty());
    }

    fn receive_line(&mut self, line: CommandOutputLine, command_output: &mut CommandOutput)
        ensures
            final(self).received() == old(self).received().push(line@),
            final(command_output)@ == old(command_output)@.push(line@),
    {
        self.lines.push(line.clone());
        assert(self.received() =~= old(self).received().push(line@));
        command_output.push(line);
    }

    fn build_report(&mut self) -> (r: Result<Report, AnalysisError>)
        ensures
            final(self).received() == old(self).received(),
            match r {
                Ok(report) => lines_view(report.lines@) == unittest_report_lines(
                    old(self).received(),
                ) && report.stats == stats_of(unittest_report_lines(old(self).received()))
                    && !report.suggest_backtrace && !report.has_passed_tests
                    && report.failure_keys@.len() == 0,
                Err(_) => false,
            },
    {
        Ok(build_report(self.lines.as_slice()))
    }
}

} // verus!
