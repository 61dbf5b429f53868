//! Building a report from the analysis of the lines of a cargo-like output
use vstd::prelude::*;
use crate::analysis::item_accumulator::number_items;
use crate::analysis::line_analyzer::{analyze_run, LineAnalyzer};
use crate::command_output::{output_lines_view, CommandOutputLine};
use crate::analysis::line_analysis::{LineAnalysis, LineAnalysisView};
use crate::analysis::line_type::{Kind, LineType};
use crate::report::{lines_view, strings_view, stats_of, Line, LineView, Report};
use crate::text::str_eq;
use crate::tline::{failed_line, is_blank_line, passed_line, tstring_view, TLine, TStringView};
use crate::tty::CSI_ITALIC;

verus! {

/// What is known of a test
#[derive(Debug, Clone, Copy, PartialEq, Eq, Structural)]
pub struct TestRecord {
    pub passed: bool,
    pub has_title: bool,
}

/// The tests met, by key, in the order in which they were first met
pub type TestMap = Seq<(Seq<char>, TestRecord)>;

/// The position of the key in the map
pub open spec fn tm_find(m: TestMap, key: Seq<char>) -> Option<int> {
    if exists|i: int| 0 <= i < m.len() && m[i].0 == key {
        Some(choose|i: int| 0 <= i < m.len() && m[i].0 == key && forall|j: int| 0 <= j < i ==> m[j].0 != key)
    } else {
        None
    }
}

/// The map where the key is given the record, keeping its position if it
/// was already there
pub open spec fn tm_insert(m: TestMap, key: Seq<char>, t: TestRecord) -> TestMap {
    match tm_find(m, key) {
        Some(i) => m.update(i, (key, t)),
        None => m.push((key, t)),
    }
}

/// The record of the key, a default one if it's not in the map
pub open spec fn tm_get_or_default(m: TestMap, key: Seq<char>) -> TestRecord {
    match tm_find(m, key) {
        Some(i) => m[i].1,
        None => TestRecord { passed: false, has_title: false },
    }
}

/// The state of the report building
pub struct StdState {
    pub warnings: Seq<LineView>,
    pub errors: Seq<LineView>,
    pub fails: Seq<LineView>,
    pub tests: TestMap,
    pub passed_tests: nat,
    pub cur_err_kind: Option<Kind>,
    pub is_in_out_fail: bool,
    pub suggest_backtrace: bool,
}

pub open spec fn std_initial() -> StdState {
    StdState {
        warnings: Seq::empty(),
        errors: Seq::empty(),
        fails: Seq::empty(),
        tests: Seq::empty(),
        passed_tests: 0,
        cur_err_kind: None,
        is_in_out_fail: false,
        suggest_backtrace: false,
    }
}

/// The state where the line goes to the item of the current kind
pub open spec fn push_to_current(s: StdState, line: LineView) -> StdState {
    match s.cur_err_kind {
        Some(Kind::Warning) => StdState { warnings: s.warnings.push(line), ..s },
        Some(Kind::Error) => StdState { errors: s.errors.push(line), ..s },
        _ => s,
    }
}

/// The step of the report building for one analyzed line
pub open spec fn std_step(s: StdState, a: LineAnalysisView, content: Seq<TStringView>) -> StdState {
    let line = LineView { item_idx: 0, line_type: a.line_type, content };
    match (a.line_type, a.key) {
        (LineType::Garbage, _) => s,
        (LineType::TestResult(r), Some(key)) => if r {
            StdState {
                passed_tests: s.passed_tests + 1,
                tests: tm_insert(s.tests, key, TestRecord { passed: true, has_title: false }),
                ..s
            }
        } else if tm_find(s.tests, key) is None {
            StdState {
                tests: tm_insert(s.tests, key, TestRecord { passed: false, has_title: false }),
                ..s
            }
        } else {
            s
        },
        (LineType::Title(Kind::TestOutput), Some(key)) | (LineType::Title(Kind::TestFail), Some(key)) => {
            let test = tm_get_or_default(s.tests, key);
            let s = StdState { is_in_out_fail: true, cur_err_kind: Some(Kind::TestFail), ..s };
            if test.has_title {
                StdState { tests: tm_insert(s.tests, key, test), ..s }
            } else {
                let title = LineView {
                    content: if test.passed {
                        passed_line(key)
                    } else {
                        failed_line(key)
                    },
                    ..line
                };
                StdState {
                    tests: tm_insert(s.tests, key, TestRecord { has_title: true, ..test }),
                    fails: s.fails.push(title),
                    ..s
                }
            }
        },
        (LineType::Normal, None) => {
            let blank = is_blank_line(content);
            if blank && s.cur_err_kind == Some(Kind::TestFail) && s.fails.len() > 0 && (
            s.fails.last().line_type != LineType::Normal || is_blank_line(s.fails.last().content)) {
                s
            } else {
                let s = if blank && s.cur_err_kind != Some(Kind::TestFail) {
                    StdState { is_in_out_fail: false, ..s }
                } else {
                    s
                };
                if s.is_in_out_fail {
                    StdState { fails: s.fails.push(line), ..s }
                } else {
                    push_to_current(s, line)
                }
            }
        },
        (LineType::Title(Kind::Sum), None) | (LineType::SectionEnd, None) => StdState {
            cur_err_kind: None,
            is_in_out_fail: false,
            ..s
        },
        (LineType::Title(kind), _) => push_to_current(StdState { cur_err_kind: Some(kind), ..s }, line),
        (LineType::BacktraceSuggestion, _) => StdState { suggest_backtrace: true, ..s },
        (LineType::Location, _) => match s.cur_err_kind {
            Some(Kind::TestFail) => StdState { fails: s.fails.push(line), ..s },
            _ => push_to_current(s, line),
        },
        _ => s,
    }
}

/// The lines added for the tests known as not passed but without output
pub open spec fn missing_outputs(tests: TestMap) -> Seq<LineView>
    decreases tests.len(),
{
    if tests.len() == 0 {
        Seq::empty()
    } else {
        let (key, test) = tests.last();
        missing_outputs(tests.drop_last()) + if test.has_title || test.passed {
            Seq::empty()
        } else {
            seq![
                LineView { item_idx: 0, line_type: LineType::Title(Kind::TestFail), content: failed_line(key) },
                LineView {
                    item_idx: 0,
                    line_type: LineType::Normal,
                    content: seq![tstring_view(CSI_ITALIC@, "no output"@)],
                },
            ]
        }
    }
}

/// The keys of the tests not passed
pub open spec fn failed_keys(tests: TestMap) -> Seq<Seq<char>>
    decreases tests.len(),
{
    if tests.len() == 0 {
        Seq::empty()
    } else if tests.last().1.passed {
        failed_keys(tests.drop_last())
    } else {
        failed_keys(tests.drop_last()).push(tests.last().0)
    }
}

/// The state after all the analyzed lines
pub open spec fn std_final(analysis: Seq<(LineAnalysisView, Seq<TStringView>)>) -> StdState {
    analysis.fold_left(
        std_initial(),
        |s: StdState, x: (LineAnalysisView, Seq<TStringView>)| std_step(s, x.0, x.1),
    )
}

/// The lines of the report: errors first, then test failures, then
/// warnings, numbered by item
pub open spec fn std_report_lines(s: StdState) -> Seq<LineView> {
    number_items(s.errors + (s.fails + missing_outputs(s.tests)) + s.warnings)
}


pub open spec fn tests_view(v: Seq<(String, TestRecord)>) -> TestMap {
    v.map_values(|p: (String, TestRecord)| (p.0@, p.1))
}

/// The position of the key among the tests
fn tm_find_exec(tests: &Vec<(String, TestRecord)>, key: &str) -> (r: Option<usize>)
    ensures
        match r {
            Some(i) => tm_find(tests_view(tests@), key@) == Some(i as int) && i < tests@.len(),
            None => tm_find(tests_view(tests@), key@) is None,
        },
{
    let ghost m = tests_view(tests@);
    let mut i: usize = 0;
    while i < tests.len()
        invariant
            i <= tests@.len(),
            m == tests_view(tests@),
            forall|j: int| 0 <= j < i ==> m[j].0 != key@,
        decreases tests@.len() - i,
    {
        assert(m[i as int].0 == tests@[i as int].0@);
        if str_eq(tests[i].0.as_str(), key) {
            proof {
                let c = choose|c: int| 0 <= c < m.len() && m[c].0 == key@ && forall|j: int| 0 <= j < c ==> m[j].0 != key@;
                assert(0 <= i < m.len() && m[i as int].0 == key@);
                if c < i {
                    assert(m[c].0 != key@);
                } else if c > i {
                    assert(m[i as int].0 != key@);
                }
            }
            return Some(i);
        }
        i += 1;
    }
    proof {
        if exists|c: int| 0 <= c < m.len() && m[c].0 == key@ {
            let c = choose|c: int| 0 <= c < m.len() && m[c].0 == key@;
            assert(m[c].0 != key@);
        }
    }
    None
}

/// Give the record to the key, keeping its position if it's already there
fn tm_insert_exec(tests: &mut Vec<(String, TestRecord)>, key: String, t: TestRecord)
    ensures
        tests_view(final(tests)@) == tm_insert(tests_view(old(tests)@), key@, t),
{
    let ghost m = tests_view(tests@);
    match tm_find_exec(tests, key.as_str()) {
        Some(i) => {
            let _ = tests.remove(i);
            tests.insert(i, (key, t));
            assert(tests_view(tests@) =~= m.update(i as int, (key@, t)));
        },
        None => {
            tests.push((key, t));
            assert(tests_view(tests@) =~= m.push((key@, t)));
        },
    }
}

/// The builder of a report from analyzed lines
pub struct StdBuilder {
    warnings: Vec<Line>,
    errors: Vec<Line>,
    fails: Vec<Line>,
    tests: Vec<(String, TestRecord)>,
    passed_tests: usize,
    cur_err_kind: Option<Kind>,
    is_in_out_fail: bool,
    suggest_backtrace: bool,
}

impl View for StdBuilder {
    type V = StdState;

    closed spec fn view(&self) -> StdState {
        StdState {
            warnings: lines_view(self.warnings@),
            errors: lines_view(self.errors@),
            fails: lines_view(self.fails@),
            tests: tests_view(self.tests@),
            passed_tests: self.passed_tests as nat,
            cur_err_kind: self.cur_err_kind,
            is_in_out_fail: self.is_in_out_fail,
            suggest_backtrace: self.suggest_backtrace,
        }
    }
}

impl StdBuilder {
    pub fn new() -> (r: Self)
        ensures
            r@ == std_initial(),
    {
        let r = StdBuilder {
            warnings: Vec::new(),
            errors: Vec::new(),
            fails: Vec::new(),
            tests: Vec::new(),
            passed_tests: 0,
            cur_err_kind: None,
            is_in_out_fail: false,
            suggest_backtrace: false,
        };
        assert(lines_view(r.warnings@) =~= Seq::<LineView>::empty());
        assert(lines_view(r.errors@) =~= Seq::<LineView>::empty());
        assert(lines_view(r.fails@) =~= Seq::<LineView>::empty());
        assert(tests_view(r.tests@) =~= Seq::<(Seq<char>, TestRecord)>::empty());
        r
    }

    /// The number of passed tests, bounded by the number of lines received
    pub closed spec fn passed_count(&self) -> nat {
        self.passed_tests as nat
    }

    fn push_to_current(&mut self, line: Line)
        ensures
            final(self)@ == push_to_current(old(self)@, line@),
            final(self).passed_count() == old(self).passed_count(),
    {
        match self.cur_err_kind {
            Some(Kind::Warning) => {
                self.warnings.push(line);
                assert(lines_view(self.warnings@) =~= lines_view(old(self).warnings@).push(line@));
            },
            Some(Kind::Error) => {
                self.errors.push(line);
                assert(lines_view(self.errors@) =~= lines_view(old(self).errors@).push(line@));
            },
            _ => {},
        }
    }

    fn push_fail(&mut self, line: Line)
        ensures
            final(self)@ == (StdState { fails: old(self)@.fails.push(line@), ..old(self)@ }),
            final(self).passed_count() == old(self).passed_count(),
    {
        self.fails.push(line);
        assert(lines_view(self.fails@) =~= lines_view(old(self).fails@).push(line@));
    }

    /// Take one analyzed line
    pub fn receive(&mut self, analysis: LineAnalysis, content: TLine)
        requires
            old(self).passed_count() < usize::MAX,
        ensures
            final(self)@ == std_step(old(self)@, analysis@, content@),
            final(self).passed_count() <= old(self).passed_count() + 1,
    {
        let line_type = analysis.line_type;
        let ghost a = analysis@;
        let ghost c = content@;
        let line = Line { item_idx: 0, line_type, content };
        match (line_type, analysis.key) {
            (LineType::Garbage, _) => {},
            (LineType::TestResult(r), Some(key)) => {
                if r {
                    self.passed_tests += 1;
                    tm_insert_exec(&mut self.tests, key, TestRecord { passed: true, has_title: false });
                } else if tm_find_exec(&self.tests, key.as_str()).is_none() {
                    tm_insert_exec(&mut self.tests, key, TestRecord { passed: false, has_title: false });
                }
            },
            (LineType::Title(Kind::TestOutput), Some(key)) | (LineType::Title(Kind::TestFail), Some(key)) => {
                let test = match tm_find_exec(&self.tests, key.as_str()) {
                    Some(i) => {
                        assert(tests_view(self.tests@)[i as int].1 == self.tests@[i as int].1);
                        self.tests[i].1
                    },
                    None => TestRecord { passed: false, has_title: false },
                };
                self.is_in_out_fail = true;
                self.cur_err_kind = Some(Kind::TestFail);
                if test.has_title {
                    tm_insert_exec(&mut self.tests, key, test);
                } else {
                    let content = if test.passed {
                        TLine::passed(key.as_str())
                    } else {
                        TLine::failed(key.as_str())
                    };
                    tm_insert_exec(&mut self.tests, key, TestRecord { has_title: true, ..test });
                    self.push_fail(Line { item_idx: 0, line_type, content });
                }
            },
            (LineType::Normal, None) => {
                let blank = line.content.is_blank();
                let mut skip = false;
                if blank {
                    if self.cur_err_kind == Some(Kind::TestFail) {
                        let n = self.fails.len();
                        if n > 0 {
                            let last = &self.fails[n - 1];
                            assert(lines_view(self.fails@).last() == last@);
                            if last.line_type != LineType::Normal || last.content.is_blank() {
                                skip = true;
                            }
                        }
                    } else {
                        self.is_in_out_fail = false;
                    }
                }
                if !skip {
                    if self.is_in_out_fail {
                        self.push_fail(line);
                    } else {
                        self.push_to_current(line);
                    }
                }
            },
            (LineType::Title(Kind::Sum), None) | (LineType::SectionEnd, None) => {
                self.cur_err_kind = None;
                self.is_in_out_fail = false;
            },
            (LineType::Title(kind), _) => {
                self.cur_err_kind = Some(kind);
                self.push_to_current(line);
            },
            (LineType::BacktraceSuggestion, _) => {
                self.suggest_backtrace = true;
            },
            (LineType::Location, _) => {
                if self.cur_err_kind == Some(Kind::TestFail) {
                    self.push_fail(line);
                } else {
                    self.push_to_current(line);
                }
            },
            _ => {},
        }
    }

    /// The report of the received lines
    pub fn report(self) -> (r: Report)
        ensures
            lines_view(r.lines@) == std_report_lines(self@),
            r.stats == stats_of(std_report_lines(self@)),
            r.suggest_backtrace == self@.suggest_backtrace,
            r.has_passed_tests == (self@.passed_tests > 0),
            strings_view(r.failure_keys@) == failed_keys(self@.tests),
            r.output@.len() == 0,
    {
        let ghost s = self@;
        let StdBuilder {
            warnings,
            errors,
            fails,
            tests,
            passed_tests,
            cur_err_kind: _,
            is_in_out_fail: _,
            suggest_backtrace,
        } = self;
        let mut fails = fails;
        let mut warnings = warnings;
        let ghost tv = tests_view(tests@);
        let mut failure_keys: Vec<String> = Vec::new();
        let mut i: usize = 0;
        assert(tv.take(0) =~= Seq::<(Seq<char>, TestRecord)>::empty());
        assert(lines_view(fails@) =~= s.fails + missing_outputs(tv.take(0)));
        assert(strings_view(failure_keys@) =~= failed_keys(tv.take(0)));
        while i < tests.len()
            invariant
                i <= tests@.len(),
                tv == tests_view(tests@),
                lines_view(fails@) == s.fails + missing_outputs(tv.take(i as int)),
                strings_view(failure_keys@) == failed_keys(tv.take(i as int)),
            decreases tests@.len() - i,
        {
            proof {
                assert(tv.take(i + 1).drop_last() =~= tv.take(i as int));
                assert(tv[i as int] == (tests@[i as int].0@, tests@[i as int].1));
            }
            let key = &tests[i].0;
            let test = tests[i].1;
            let ghost before = lines_view(fails@);
            let ghost keys_before = strings_view(failure_keys@);
            if !(test.has_title || test.passed) {
                fails.push(Line { item_idx: 0, line_type: LineType::Title(Kind::TestFail), content: TLine::failed(key.as_str()) });
                fails.push(Line {
                    item_idx: 0,
                    line_type: LineType::Normal,
                    content: TLine::italic(String::from_str("no output")),
                });
                proof {
                    let n = fails@.len();
                    assert(lines_view(fails@) =~= before + seq![fails@[n - 2]@, fails@[n - 1]@]);
                }
            } else {
                assert(before + Seq::<LineView>::empty() =~= before);
            }
            if !test.passed {
                failure_keys.push(key.clone());
                assert(strings_view(failure_keys@) =~= keys_before.push(key@));
            }
            i += 1;
        }
        assert(tv.take(tests@.len() as int) =~= tv);
        let mut lines = errors;
        let ghost e = lines@;
        let ghost f = fails@;
        let ghost w = warnings@;
        lines.append(&mut fails);
        lines.append(&mut warnings);
        assert(lines_view(e + f + w) =~= lines_view(e) + lines_view(f) + lines_view(w));
        crate::analysis::item_accumulator::number_lines(&mut lines);
        let mut report = Report::new(lines);
        report.suggest_backtrace = suggest_backtrace;
        report.has_passed_tests = passed_tests > 0;
        report.failure_keys = failure_keys;
        report
    }
}

/// What analyzed lines stand for
pub open spec fn analyses_view(v: Seq<(LineAnalysis, TLine)>) -> Seq<
    (LineAnalysisView, Seq<TStringView>),
> {
    v.map_values(|p: (LineAnalysis, TLine)| (p.0@, p.1@))
}

/// Build a report from analyzed lines
pub fn build_report_from_analysis(analysis: Vec<(LineAnalysis, TLine)>) -> (r: Report)
    ensures
        lines_view(r.lines@) == std_report_lines(
            std_final(analyses_view(analysis@)),
        ),
        r.stats == stats_of(
            std_report_lines(std_final(analyses_view(analysis@))),
        ),
        r.suggest_backtrace == std_final(analyses_view(analysis@)).suggest_backtrace,
        r.has_passed_tests == (std_final(analyses_view(analysis@)).passed_tests > 0),
        strings_view(r.failure_keys@) == failed_keys(std_final(analyses_view(analysis@)).tests),
        r.output@.len() == 0,
{
    let ghost av = analyses_view(analysis@);
    let n = analysis.len();
    let mut analysis = crate::text::reversed(analysis);
    let ghost rev = analysis@;
    let mut builder = StdBuilder::new();
    let mut i: usize = 0;
    while i < n
        invariant
            i <= n == av.len() == rev.len(),
            analysis@ == rev.take(n - i),
            forall|k: int| 0 <= k < n ==> #[trigger] av[k] == (rev[n - 1 - k].0@, rev[n - 1 - k].1@),
            builder.passed_count() <= i,
            builder@ == av.take(i as int).fold_left(
                std_initial(),
                |s: StdState, x: (LineAnalysisView, Seq<TStringView>)| std_step(s, x.0, x.1),
            ),
        decreases n - i,
    {
        let (a, content) = analysis.pop().unwrap();
        proof {
            assert(av.take(i + 1).drop_last() =~= av.take(i as int));
            assert(av[i as int] == (a@, content@));
            assert(rev.take(n - i).drop_last() =~= rev.take(n - i - 1));
        }
        builder.receive(a, content);
        i += 1;
    }
    assert(av.take(n as int) =~= av);
    builder.report()
}
/// Build a report from command output lines, analyzed one after the other
pub fn build_report<L: LineAnalyzer>(cmd_lines: &[CommandOutputLine], line_analyzer: L) -> (r:
    Report)
    ensures
        lines_view(r.lines@) == std_report_lines(
            std_final(analyze_run::<L>(line_analyzer@, output_lines_view(cmd_lines@)).1),
        ),
        r.stats == stats_of(
            std_report_lines(std_final(analyze_run::<L>(line_analyzer@, output_lines_view(cmd_lines@)).1)),
        ),
        r.suggest_backtrace == std_final(
            analyze_run::<L>(line_analyzer@, output_lines_view(cmd_lines@)).1,
        ).suggest_backtrace,
        r.has_passed_tests == (std_final(
            analyze_run::<L>(line_analyzer@, output_lines_view(cmd_lines@)).1,
        ).passed_tests > 0),
        strings_view(r.failure_keys@) == failed_keys(
            std_final(analyze_run::<L>(line_analyzer@, output_lines_view(cmd_lines@)).1).tests,
        ),
        r.output@.len() == 0,
{
    let ghost lv = output_lines_view(cmd_lines@);
    let mut analyzer = line_analyzer;
    let mut analysis: Vec<(LineAnalysis, TLine)> = Vec::new();
    let n = cmd_lines.len();
    let mut i: usize = 0;
    while i < n
        invariant
            i <= n == cmd_lines@.len() == lv.len(),
            lv == output_lines_view(cmd_lines@),
            (analyzer@, analyses_view(analysis@)) == analyze_run::<L>(line_analyzer@, lv.take(i as int)),
        decreases n - i,
    {
        let a = analyzer.analyze_line(&cmd_lines[i]);
        let content = cmd_lines[i].content.clone();
        let ghost before = analysis@;
        analysis.push((a, content));
        proof {
            assert(lv.take(i + 1).drop_last() =~= lv.take(i as int));
            assert(lv[i as int] == cmd_lines@[i as int]@);
            assert(analyses_view(analysis@) =~= analyses_view(before).push((a@, content@)));
        }
        i += 1;
    }
    assert(lv.take(n as int) =~= lv);
    build_report_from_analysis(analysis)
}

/// A line of the output which isn't blank and belongs to no test goes to
/// the item being built: the failure output when in one, else the warning
/// or the error of the last title; the other sections don't change
pub proof fn lemma_normal_line_goes_to_current_item(s: StdState, content: Seq<TStringView>)
    requires
        !is_blank_line(content),
    ensures
        ({
            let r = std_step(s, LineAnalysisView { line_type: LineType::Normal, key: None }, content);
            let line = LineView { item_idx: 0, line_type: LineType::Normal, content };
            &&& r.tests == s.tests
            &&& r.passed_tests == s.passed_tests
            &&& r.cur_err_kind == s.cur_err_kind
            &&& r.is_in_out_fail == s.is_in_out_fail
            &&& s.is_in_out_fail ==> r.fails == s.fails.push(line) && r.warnings == s.warnings
                && r.errors == s.errors
            &&& (!s.is_in_out_fail && s.cur_err_kind == Some(Kind::Warning)) ==> r.warnings
                == s.warnings.push(line) && r.errors == s.errors && r.fails == s.fails
            &&& (!s.is_in_out_fail && s.cur_err_kind == Some(Kind::Error)) ==> r.errors == s.errors.push(
                line,
            ) && r.warnings == s.warnings && r.fails == s.fails
            &&& (!s.is_in_out_fail && s.cur_err_kind != Some(Kind::Warning) && s.cur_err_kind != Some(
                Kind::Error,
            )) ==> r.errors == s.errors && r.warnings == s.warnings && r.fails == s.fails
        }),
{
}

/// A blank line out of a test failure ends the failure output, and is
/// kept in the current warning or error
pub proof fn lemma_blank_line_out_of_test(s: StdState, content: Seq<TStringView>)
    requires
        is_blank_line(content),
        s.cur_err_kind != Some(Kind::TestFail),
    ensures
        ({
            let r = std_step(s, LineAnalysisView { line_type: LineType::Normal, key: None }, content);
            let line = LineView { item_idx: 0, line_type: LineType::Normal, content };
            &&& !r.is_in_out_fail
            &&& r.fails == s.fails
            &&& s.cur_err_kind == Some(Kind::Warning) ==> r.warnings == s.warnings.push(line)
            &&& s.cur_err_kind == Some(Kind::Error) ==> r.errors == s.errors.push(line)
        }),
{
}

/// A title of warning or error starts a new item of that kind: the title
/// line is added to the warnings, or to the errors
pub proof fn lemma_title_starts_item(s: StdState, content: Seq<TStringView>, key: Option<Seq<char>>)
    ensures
        ({
            let r = std_step(s, LineAnalysisView { line_type: LineType::Title(Kind::Warning), key }, content);
            let line = LineView { item_idx: 0, line_type: LineType::Title(Kind::Warning), content };
            r.cur_err_kind == Some(Kind::Warning) && r.warnings == s.warnings.push(line) && r.errors
                == s.errors && r.fails == s.fails
        }),
        ({
            let r = std_step(s, LineAnalysisView { line_type: LineType::Title(Kind::Error), key }, content);
            let line = LineView { item_idx: 0, line_type: LineType::Title(Kind::Error), content };
            r.cur_err_kind == Some(Kind::Error) && r.errors == s.errors.push(line) && r.warnings
                == s.warnings && r.fails == s.fails
        }),
{
}

/// A location goes to the item being built: warning, error or test failure
pub proof fn lemma_location_goes_to_current_item(s: StdState, content: Seq<TStringView>, key: Option<Seq<char>>)
    ensures
        ({
            let r = std_step(s, LineAnalysisView { line_type: LineType::Location, key }, content);
            let line = LineView { item_idx: 0, line_type: LineType::Location, content };
            &&& r.cur_err_kind == s.cur_err_kind
            &&& s.cur_err_kind == Some(Kind::Warning) ==> r.warnings == s.warnings.push(line) && r.errors
                == s.errors && r.fails == s.fails
            &&& s.cur_err_kind == Some(Kind::Error) ==> r.errors == s.errors.push(line) && r.warnings
                == s.warnings && r.fails == s.fails
            &&& s.cur_err_kind == Some(Kind::TestFail) ==> r.fails == s.fails.push(line) && r.warnings
                == s.warnings && r.errors == s.errors
        }),
{
}

/// Garbage lines change nothing; a backtrace suggestion only sets the
/// suggestion; the end of a section, or a sum, ends the current item
pub proof fn lemma_other_lines(s: StdState, content: Seq<TStringView>, key: Option<Seq<char>>)
    ensures
        std_step(s, LineAnalysisView { line_type: LineType::Garbage, key }, content) == s,
        std_step(s, LineAnalysisView { line_type: LineType::BacktraceSuggestion, key }, content) == (
        StdState { suggest_backtrace: true, ..s }),
        std_step(s, LineAnalysisView { line_type: LineType::SectionEnd, key: None }, content) == (
        StdState { cur_err_kind: None, is_in_out_fail: false, ..s }),
        std_step(s, LineAnalysisView { line_type: LineType::Title(Kind::Sum), key: None }, content) == (
        StdState { cur_err_kind: None, is_in_out_fail: false, ..s }),
{
}

pub proof fn lemma_tm_find_is(m: TestMap, key: Seq<char>, i: int)
    requires
        0 <= i < m.len(),
        m[i].0 == key,
        forall|j: int| 0 <= j < i ==> m[j].0 != key,
    ensures
        tm_find(m, key) == Some(i),
{
    let f = choose|k: int| 0 <= k < m.len() && m[k].0 == key && forall|j: int| 0 <= j < k ==> m[j].0 != key;
    assert(0 <= f < m.len() && m[f].0 == key && forall|j: int| 0 <= j < f ==> m[j].0 != key);
    if f < i {
        assert(m[f].0 != key);
    } else if f > i {
        assert(m[i].0 != key);
    }
}

pub proof fn lemma_tm_find_some(m: TestMap, key: Seq<char>)
    ensures
        tm_find(m, key) is Some ==> ({
            let i = tm_find(m, key).unwrap();
            0 <= i < m.len() && m[i].0 == key && forall|j: int| 0 <= j < i ==> m[j].0 != key
        }),
        tm_find(m, key) is None ==> forall|j: int| 0 <= j < m.len() ==> m[j].0 != key,
{
    if exists|k: int| 0 <= k < m.len() && m[k].0 == key {
        let k0 = choose|k: int| 0 <= k < m.len() && m[k].0 == key;
        lemma_first_key(m, key, k0);
    }
}

/// When the key stands in the map, there's a first position where it stands
proof fn lemma_first_key(m: TestMap, key: Seq<char>, k: int)
    requires
        0 <= k < m.len(),
        m[k].0 == key,
    ensures
        exists|i: int| 0 <= i < m.len() && m[i].0 == key && forall|j: int| 0 <= j < i ==> m[j].0 != key,
    decreases k,
{
    if exists|j: int| 0 <= j < k && m[j].0 == key {
        let j = choose|j: int| 0 <= j < k && m[j].0 == key;
        lemma_first_key(m, key, j);
    } else {
        assert(forall|j: int| 0 <= j < k ==> m[j].0 != key);
    }
}

/// A record inserted is found under its key
pub proof fn lemma_tm_insert_find(m: TestMap, key: Seq<char>, t: TestRecord)
    ensures
        tm_find(tm_insert(m, key, t), key) is Some,
        tm_insert(m, key, t)[tm_find(tm_insert(m, key, t), key).unwrap()] == (key, t),
{
    let r = tm_insert(m, key, t);
    lemma_tm_find_some(m, key);
    match tm_find(m, key) {
        Some(i) => {
            assert forall|j: int| 0 <= j < i implies r[j].0 != key by {
                assert(r[j] == m[j]);
            }
            lemma_tm_find_is(r, key, i);
        },
        None => {
            let n = m.len() as int;
            assert forall|j: int| 0 <= j < n implies r[j].0 != key by {
                assert(r[j] == m[j]);
            }
            lemma_tm_find_is(r, key, n);
        },
    }
}

/// A passed test is counted, and recorded as passed
pub proof fn lemma_passed_test_counted(s: StdState, content: Seq<TStringView>, key: Seq<char>)
    ensures
        ({
            let r = std_step(s, LineAnalysisView { line_type: LineType::TestResult(true), key: Some(key) }, content);
            &&& r.passed_tests == s.passed_tests + 1
            &&& tm_find(r.tests, key) is Some
            &&& r.tests[tm_find(r.tests, key).unwrap()].1.passed
            &&& r.warnings == s.warnings && r.errors == s.errors && r.fails == s.fails
        }),
{
    lemma_tm_insert_find(s.tests, key, TestRecord { passed: true, has_title: false });
}

} // verus!
