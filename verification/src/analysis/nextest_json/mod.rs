//! Reports of the JSON output of nextest (`--message-format libtest-json`)
use vstd::prelude::*;
use crate::analysis::line_type::{Kind, LineType};
use crate::analysis::analyzer::Analyzer;
use crate::analysis::standard::StandardAnalyzer;
use crate::command_output::{output_lines_view, CommandOutput, CommandOutputLine, CommandOutputLineView, CommandStream};
use crate::tline::raw_of;
use crate::report::{lines_view, strings_view, Line, LineView, Report, Stats};
use crate::text::{find_char_from, first_char_from, lemma_first_char_from, split_lines, string_of, text_lines, to_chars};
use crate::tline::{failed_line, tstring_view, TLine};

verus! {

/// An event about a test
pub enum TestEvent {
    Started,
    Succeeded { name: String },
    Failed { name: String, stdout: String },
    Ignored { name: String },
}

/// An event about the suite of tests
pub enum SuiteEvent {
    Started { test_count: usize },
    Succeeded { passed: usize, failed: usize, ignored: usize, measured: usize, filtered_out: usize },
    Failed { passed: usize, failed: usize, ignored: usize, measured: usize, filtered_out: usize },
}

/// A line of the JSON output of nextest
#[allow(inconsistent_fields)]
pub enum OutputLine {
    Suite { event: SuiteEvent },
    Test { event: TestEvent },
}

/// The name of a test without the part up to the first `$`
/// (which is the binary's name)
pub open spec fn spec_cleanup_name(name: Seq<char>) -> Seq<char> {
    match first_char_from(name, '$', 0) {
        Some(i) => name.skip(i + 1),
        None => name,
    }
}

/// Remove the binary's name, up to the first `$`, from a test name
pub fn cleanup_name(name: &str) -> (r: String)
    ensures
        r@ == spec_cleanup_name(name@),
{
    let chars = to_chars(name);
    let n = chars.len();
    proof {
        lemma_first_char_from(name@, '$', 0);
    }
    match find_char_from(chars.as_slice(), '$', 0) {
        Some(idx) => {
            assert(chars@.subrange(idx + 1, n as int) =~= name@.skip(idx + 1));
            string_of(chars.as_slice(), idx + 1, n)
        },
        None => String::from_str(name),
    }
}

/// The state of the report building from nextest events
pub struct NextestJsonState {
    pub lines: Seq<LineView>,
    pub stats: Stats,
    pub failure_keys: Seq<Seq<char>>,
    pub item_idx: nat,
}

/// The lines of a failed test's output
pub open spec fn output_lines(item_idx: nat, outlines: Seq<Seq<char>>) -> Seq<LineView> {
    outlines.map_values(
        |o: Seq<char>|
            LineView {
                item_idx: item_idx as usize,
                line_type: LineType::Normal,
                content: seq![tstring_view(Seq::empty(), o)],
            },
    )
}

/// The step of the report building for one event
pub open spec fn nextest_json_step(s: NextestJsonState, e: OutputLine) -> NextestJsonState {
    match e {
        OutputLine::Suite { event: SuiteEvent::Failed { passed, failed, .. } } => NextestJsonState {
            stats: Stats { test_fails: failed, passed_tests: passed, ..s.stats },
            ..s
        },
        OutputLine::Test { event: TestEvent::Failed { name, stdout } } => {
            let key = spec_cleanup_name(name@);
            let title = LineView {
                item_idx: s.item_idx as usize,
                line_type: LineType::Title(Kind::Error),
                content: failed_line(key),
            };
            NextestJsonState {
                lines: s.lines.push(title) + output_lines(s.item_idx, text_lines(stdout@)),
                failure_keys: s.failure_keys.push(key),
                item_idx: s.item_idx + 1,
                ..s
            }
        },
        _ => s,
    }
}

pub open spec fn nextest_json_initial() -> NextestJsonState {
    NextestJsonState {
        lines: Seq::empty(),
        stats: Stats { warnings: 0, errors: 0, test_fails: 0, passed_tests: 0 },
        failure_keys: Seq::empty(),
        item_idx: 0,
    }
}

/// The state after all the events
pub open spec fn nextest_json_final(events: Seq<OutputLine>) -> NextestJsonState {
    events.fold_left(nextest_json_initial(), |s: NextestJsonState, e: OutputLine| nextest_json_step(s, e))
}

/// Add the lines of a failed test: its title, then its output
fn push_failed_test(lines: &mut Vec<Line>, item_idx: usize, name: &str, stdout: &str)
    ensures
        lines_view(final(lines)@) == lines_view(old(lines)@).push(
            LineView {
                item_idx: item_idx,
                line_type: LineType::Title(Kind::Error),
                content: failed_line(name@),
            },
        ) + output_lines(item_idx as nat, text_lines(stdout@)),
{
    let ghost before = lines_view(lines@);
    lines.push(
        Line { item_idx, line_type: LineType::Title(Kind::Error), content: TLine::failed(name) },
    );
    let ghost with_title = lines_view(lines@);
    assert(with_title =~= before.push(lines@.last()@));
    let outlines = split_lines(stdout);
    let mut k: usize = 0;
    assert(output_lines(item_idx as nat, text_lines(stdout@).take(0)) =~= Seq::<LineView>::empty());
    while k < outlines.len()
        invariant
            k <= outlines@.len(),
            outlines@.map_values(|l: String| l@) == text_lines(stdout@),
            lines_view(lines@) == with_title + output_lines(
                item_idx as nat,
                text_lines(stdout@).take(k as int),
            ),
        decreases outlines@.len() - k,
    {
        let ghost prev = lines_view(lines@);
        let outline = outlines[k].clone();
        lines.push(Line { item_idx, line_type: LineType::Normal, content: TLine::from_raw(outline) });
        proof {
            assert(text_lines(stdout@)[k as int] == outlines@[k as int]@);
            assert(lines_view(lines@) =~= prev.push(lines@.last()@));
            assert(text_lines(stdout@).take(k + 1) =~= text_lines(stdout@).take(k as int).push(
                text_lines(stdout@)[k as int],
            ));
            assert(output_lines(item_idx as nat, text_lines(stdout@).take(k + 1)) =~= output_lines(
                item_idx as nat,
                text_lines(stdout@).take(k as int),
            ).push(lines@.last()@));
        }
        k += 1;
    }
    assert(text_lines(stdout@).take(outlines@.len() as int) =~= text_lines(stdout@));
}

/// Build the report of the events of a nextest run: each failed test
/// makes an item, with its output; the counts come from the suite's
/// failure event.
pub fn build_report_from_events(events: &[OutputLine]) -> (r: Report)
    ensures
        lines_view(r.lines@) == nextest_json_final(events@).lines,
        r.stats == nextest_json_final(events@).stats,
        strings_view(r.failure_keys@) == nextest_json_final(events@).failure_keys,
        !r.suggest_backtrace,
        r.output@.len() == 0,
        !r.has_passed_tests,
{
    let mut lines: Vec<Line> = Vec::new();
    let mut stats = Stats::default();
    let mut failure_keys: Vec<String> = Vec::new();
    let mut item_idx: usize = 0;
    let mut i: usize = 0;
    assert(lines_view(lines@) =~= Seq::<LineView>::empty());
    assert(strings_view(failure_keys@) =~= Seq::<Seq<char>>::empty());
    assert(events@.take(0) =~= Seq::<OutputLine>::empty());
    while i < events.len()
        invariant
            i <= events@.len(),
            item_idx <= i,
            (NextestJsonState {
                lines: lines_view(lines@),
                stats,
                failure_keys: strings_view(failure_keys@),
                item_idx: item_idx as nat,
            }) == events@.take(i as int).fold_left(
                nextest_json_initial(),
                |s: NextestJsonState, e: OutputLine| nextest_json_step(s, e),
            ),
        decreases events@.len() - i,
    {
        proof {
            assert(events@.take(i + 1).drop_last() =~= events@.take(i as int));
        }
        match &events[i] {
            OutputLine::Suite { event: SuiteEvent::Failed { passed, failed, .. } } => {
                stats.test_fails = *failed;
                stats.passed_tests = *passed;
            },
            OutputLine::Test { event: TestEvent::Failed { name, stdout } } => {
                let name = cleanup_name(name.as_str());
                push_failed_test(&mut lines, item_idx, name.as_str(), stdout.as_str());
                let ghost keys_before = strings_view(failure_keys@);
                failure_keys.push(name);
                assert(strings_view(failure_keys@) =~= keys_before.push(failure_keys@.last()@));
                item_idx += 1;
            },
            _ => {},
        }
        i += 1;
    }
    assert(events@.take(events@.len() as int) =~= events@);
    Report {
        lines,
        stats,
        suggest_backtrace: false,
        output: CommandOutput::default(),
        failure_keys,
        has_passed_tests: false,
    }
}

/// The analyzer of the JSON output of nextest: the JSON payloads come on
/// stdout, while stderr is human readable and goes to a standard analyzer.
/// The payloads are decoded by the caller, which then builds the report
/// with `build_report_from_events`.
#[derive(Debug)]
pub struct NextestJSONAnalyzer {
    lines: Vec<CommandOutputLine>,
    standard_analyzer: StandardAnalyzer,
}

impl NextestJSONAnalyzer {
    /// The JSON lines received since the start
    pub closed spec fn json_received(&self) -> Seq<CommandOutputLineView> {
        output_lines_view(self.lines@)
    }

    /// The human readable lines received
    pub closed spec fn stderr_received(&self) -> Seq<CommandOutputLineView> {
        self.standard_analyzer.received()
    }

    pub fn new() -> (r: Self)
        ensures
            r.json_received() == Seq::<CommandOutputLineView>::empty(),
            r.stderr_received() == Seq::<CommandOutputLineView>::empty(),
    {
        let r = NextestJSONAnalyzer { lines: Vec::new(), standard_analyzer: StandardAnalyzer::default() };
        assert(r.json_received() =~= Seq::<CommandOutputLineView>::empty());
        r
    }

    /// Forget the JSON lines of a previous execution
    pub fn start(&mut self)
        ensures
            final(self).json_received() == Seq::<CommandOutputLineView>::empty(),
            final(self).stderr_received() == old(self).stderr_received(),
    {
        self.lines.clear();
        assert(self.json_received() =~= Seq::<CommandOutputLineView>::empty());
    }

    /// Take a line: a JSON payload when it comes on stdout, else a human
    /// readable line which goes to the command output
    pub fn receive_line(&mut self, line: CommandOutputLine, command_output: &mut CommandOutput)
        ensures
            line.origin == CommandStream::StdOut ==> {
                &&& final(self).json_received() == old(self).json_received().push(line@)
                &&& final(self).stderr_received() == old(self).stderr_received()
                &&& final(command_output)@ == old(command_output)@
            },
            line.origin == CommandStream::StdErr ==> {
                &&& final(self).json_received() == old(self).json_received()
                &&& final(self).stderr_received() == old(self).stderr_received().push(line@)
                &&& final(command_output)@ == old(command_output)@.push(line@)
            },
    {
        match line.origin {
            CommandStream::StdErr => self.standard_analyzer.receive_line(line, command_output),
            CommandStream::StdOut => {
                let ghost l = line@;
                self.lines.push(line);
                assert(self.json_received() =~= old(self).json_received().push(l));
            },
        }
    }

    /// The text of the JSON lines, to be decoded
    pub fn json_lines(&self) -> (r: Vec<String>)
        ensures
            r@.len() == self.json_received().len(),
            forall|i: int| 0 <= i < r@.len() ==> #[trigger] r@[i]@ == raw_of(self.json_received()[i].content),
    {
        let mut r: Vec<String> = Vec::new();
        let mut i: usize = 0;
        while i < self.lines.len()
            invariant
                i <= self.lines@.len(),
                r@.len() == i,
                forall|j: int| 0 <= j < i ==> #[trigger] r@[j]@ == raw_of(self.json_received()[j].content),
            decreases self.lines@.len() - i,
        {
            r.push(self.lines[i].content.to_raw());
            i += 1;
        }
        r
    }
}

} // verus!
