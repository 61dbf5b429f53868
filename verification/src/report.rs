//! Reports: the lines of the items recognized in the output of a command.
use vstd::prelude::*;
use crate::analysis::line_type::{Kind, LineType};
use crate::command_output::CommandOutput;
use crate::tline::{TLine, TStringView};

verus! {

/// A line of a report
#[derive(Debug)]
pub struct Line {
    /// the index among items
    /// (all lines having the same index belong to the same item)
    pub item_idx: usize,
    pub line_type: LineType,
    pub content: TLine,
}

/// What a line of a report stands for
pub struct LineView {
    pub item_idx: usize,
    pub line_type: LineType,
    pub content: Seq<TStringView>,
}

impl View for Line {
    type V = LineView;

    open spec fn view(&self) -> LineView {
        LineView { item_idx: self.item_idx, line_type: self.line_type, content: self.content@ }
    }
}

pub open spec fn lines_view(s: Seq<Line>) -> Seq<LineView> {
    s.map_values(|l: Line| l@)
}

pub open spec fn strings_view(s: Seq<String>) -> Seq<Seq<char>> {
    s.map_values(|l: String| l@)
}

/// The number of titles of the given kind among the lines
pub open spec fn count_titles(s: Seq<LineView>, kind: Kind) -> nat
    decreases s.len(),
{
    if s.len() == 0 {
        0
    } else {
        count_titles(s.drop_last(), kind) + if s.last().line_type == LineType::Title(kind) {
            1nat
        } else {
            0nat
        }
    }
}

pub proof fn lemma_count_titles_bound(s: Seq<LineView>, kind: Kind)
    ensures
        count_titles(s, kind) <= s.len(),
    decreases s.len(),
{
    if s.len() > 0 {
        lemma_count_titles_bound(s.drop_last(), kind);
    }
}

/// Counts of the items of a report
#[derive(Debug, Clone, Copy, PartialEq, Eq, Structural)]
pub struct Stats {
    pub warnings: usize,
    pub errors: usize,
    pub test_fails: usize,
    pub passed_tests: usize,
}

impl Default for Stats {
    fn default() -> (r: Self)
        ensures
            r == (Stats { warnings: 0, errors: 0, test_fails: 0, passed_tests: 0 }),
    {
        Stats { warnings: 0, errors: 0, test_fails: 0, passed_tests: 0 }
    }
}

/// The stats of a list of lines: the number of titles of each kind
pub open spec fn stats_of(s: Seq<LineView>) -> Stats {
    Stats {
        warnings: count_titles(s, Kind::Warning) as usize,
        errors: count_titles(s, Kind::Error) as usize,
        test_fails: count_titles(s, Kind::TestFail) as usize,
        passed_tests: 0,
    }
}

impl Stats {
    /// Count the titles of the lines
    pub fn from_lines(lines: &[Line]) -> (r: Self)
        ensures
            r == stats_of(lines_view(lines@)),
    {
        let ghost lv = lines_view(lines@);
        let mut stats = Stats::default();
        let mut i: usize = 0;
        while i < lines.len()
            invariant
                i <= lines@.len(),
                lv == lines_view(lines@),
                stats == stats_of(lv.take(i as int)),
            decreases lines@.len() - i,
        {
            proof {
                assert(lv.take(i + 1).drop_last() =~= lv.take(i as int));
                lemma_count_titles_bound(lv.take(i as int), Kind::Warning);
                lemma_count_titles_bound(lv.take(i as int), Kind::Error);
                lemma_count_titles_bound(lv.take(i as int), Kind::TestFail);
            }
            match lines[i].line_type {
                LineType::Title(Kind::Error) => {
                    stats.errors += 1;
                },
                LineType::Title(Kind::TestFail) => {
                    stats.test_fails += 1;
                },
                LineType::Title(Kind::Warning) => {
                    stats.warnings += 1;
                },
                _ => {},
            }
            i += 1;
        }
        assert(lv.take(lines@.len() as int) =~= lv);
        stats
    }
}

/// the usable content of cargo watch's output,
/// lines rearranged and items recognized
#[derive(Debug)]
pub struct Report {
    pub lines: Vec<Line>,
    pub stats: Stats,
    pub suggest_backtrace: bool,
    pub output: CommandOutput,
    /// the keys of the failed tests
    pub failure_keys: Vec<String>,
    pub has_passed_tests: bool,
}

/// The lines of `s` belonging to the item of index `k`, in order
pub open spec fn lines_of_item(s: Seq<Line>, k: usize) -> Seq<Line>
    decreases s.len(),
{
    if s.len() == 0 {
        s
    } else if s.last().item_idx == k {
        lines_of_item(s.drop_last(), k).push(s.last())
    } else {
        lines_of_item(s.drop_last(), k)
    }
}

/// The lines are ordered by decreasing item index
pub open spec fn is_by_decreasing_item(s: Seq<Line>) -> bool {
    forall|i: int, j: int| 0 <= i < j < s.len() ==> s[i].item_idx >= s[j].item_idx
}

/// `r` holds the lines of `s` ordered by decreasing item index, the lines
/// of an item keeping their order.
pub open spec fn is_items_reversal(s: Seq<Line>, r: Seq<Line>) -> bool {
    &&& is_by_decreasing_item(r)
    &&& forall|k: usize| #[trigger] lines_of_item(r, k) == lines_of_item(s, k)
}

pub proof fn lemma_lines_of_item_concat(a: Seq<Line>, b: Seq<Line>, k: usize)
    ensures
        lines_of_item(a + b, k) == lines_of_item(a, k) + lines_of_item(b, k),
    decreases b.len(),
{
    if b.len() == 0 {
        assert(a + b =~= a);
        assert(lines_of_item(a, k) + lines_of_item(b, k) =~= lines_of_item(a, k));
    } else {
        assert((a + b).drop_last() =~= a + b.drop_last());
        lemma_lines_of_item_concat(a, b.drop_last(), k);
        if b.last().item_idx == k {
            assert(lines_of_item(a, k) + lines_of_item(b.drop_last(), k).push(b.last()) =~= (
            lines_of_item(a, k) + lines_of_item(b.drop_last(), k)).push(b.last()));
        }
    }
}

pub proof fn lemma_lines_of_item_none(b: Seq<Line>, k: usize)
    requires
        forall|i: int| 0 <= i < b.len() ==> b[i].item_idx != k,
    ensures
        lines_of_item(b, k) == Seq::<Line>::empty(),
    decreases b.len(),
{
    if b.len() > 0 {
        lemma_lines_of_item_none(b.drop_last(), k);
    }
}

/// Inserting a line before the lines of lower item index, after the others,
/// appends it to the lines of its item
pub proof fn lemma_insert_keeps_items(before: Seq<Line>, p: int, line: Line, k: usize)
    requires
        0 <= p <= before.len(),
        forall|j: int| p <= j < before.len() ==> before[j].item_idx < line.item_idx,
    ensures
        lines_of_item(before.insert(p, line), k) == if k == line.item_idx {
            lines_of_item(before, k).push(line)
        } else {
            lines_of_item(before, k)
        },
{
    let a = before.take(p);
    let b = before.skip(p);
    let l = seq![line];
    assert(before.insert(p, line) =~= a + l + b);
    assert(before =~= a + b);
    lemma_lines_of_item_concat(a + l, b, k);
    lemma_lines_of_item_concat(a, l, k);
    lemma_lines_of_item_concat(a, b, k);
    assert(l.drop_last() =~= Seq::<Line>::empty());
    assert(lines_of_item(Seq::<Line>::empty(), k) =~= Seq::<Line>::empty());
    if k == line.item_idx {
        assert(lines_of_item(l, k) =~= seq![line]);
    } else {
        assert(lines_of_item(l, k) =~= Seq::<Line>::empty());
    }
    if k == line.item_idx {
        lemma_lines_of_item_none(b, k);
        assert(lines_of_item(a, k) + lines_of_item(l, k) + lines_of_item(b, k) =~= (lines_of_item(a, k)
            + lines_of_item(b, k)).push(line));
    } else {
        assert(lines_of_item(a, k) + lines_of_item(l, k) + lines_of_item(b, k) =~= lines_of_item(a, k)
            + lines_of_item(b, k));
    }
}

impl Report {
    /// A report with the given lines, the stats counting their titles
    pub fn new(lines: Vec<Line>) -> (r: Self)
        ensures
            r.lines@ == lines@,
            r.stats == stats_of(lines_view(lines@)),
            !r.suggest_backtrace,
            r.output@.len() == 0,
            r.failure_keys@.len() == 0,
            !r.has_passed_tests,
    {
        let stats = Stats::from_lines(lines.as_slice());
        Report {
            lines,
            stats,
            suggest_backtrace: false,
            output: CommandOutput::default(),
            failure_keys: Vec::new(),
            has_passed_tests: false,
        }
    }

    /// Change the order of the lines so that items are in reverse order,
    /// keeping the order of the lines of a given item
    pub fn reverse(&mut self)
        ensures
            is_items_reversal(old(self).lines@, final(self).lines@),
            final(self).lines@.len() == old(self).lines@.len(),
            final(self).stats == old(self).stats,
            final(self).suggest_backtrace == old(self).suggest_backtrace,
            final(self).output == old(self).output,
            final(self).failure_keys == old(self).failure_keys,
            final(self).has_passed_tests == old(self).has_passed_tests,
    {
        let mut rest: Vec<Line> = Vec::new();
        std::mem::swap(&mut rest, &mut self.lines);
        let ghost orig = rest@;
        let n = rest.len();
        let mut sorted: Vec<Line> = Vec::new();
        let mut i: usize = 0;
        while rest.len() > 0
            invariant
                n == orig.len(),
                i + rest@.len() == orig.len(),
                sorted@.len() == i,
                rest@ == orig.skip(i as int),
                is_by_decreasing_item(sorted@),
                forall|k: usize| #[trigger]
                    lines_of_item(sorted@, k) == lines_of_item(orig.take(i as int), k),
            decreases rest@.len(),
        {
            let line = rest.remove(0);
            let key = line.item_idx;
            let mut p: usize = 0;
            while p < sorted.len() && sorted[p].item_idx >= key
                invariant
                    p <= sorted@.len(),
                    forall|j: int| 0 <= j < p ==> sorted@[j].item_idx >= key,
                decreases sorted@.len() - p,
            {
                p += 1;
            }
            let ghost before = sorted@;
            proof {
                assert forall|j: int| p <= j < before.len() implies before[j].item_idx < key by {
                    assert(before[p as int].item_idx < key);
                }
            }
            sorted.insert(p, line);
            proof {
                assert(sorted@ =~= before.take(p as int) + seq![line] + before.skip(p as int));
                assert(before =~= before.take(p as int) + before.skip(p as int));
                assert(orig.take(i + 1) =~= orig.take(i as int).push(line));
                assert forall|k: usize| #[trigger]
                    lines_of_item(sorted@, k) == lines_of_item(orig.take(i + 1), k) by {
                    assert(lines_of_item(before, k) == lines_of_item(orig.take(i as int), k));
                    lemma_insert_keeps_items(before, p as int, line, k);
                    assert(orig.take(i + 1).drop_last() =~= orig.take(i as int));
                }
                assert forall|a: int, b: int| 0 <= a < b < sorted@.len() implies sorted@[a].item_idx
                    >= sorted@[b].item_idx by {
                    if b < p {
                    } else if b == p {
                    } else if a < p {
                        assert(sorted@[b] == before[b - 1]);
                    } else if a == p {
                        assert(sorted@[b] == before[b - 1]);
                    } else {
                        assert(sorted@[a] == before[a - 1]);
                        assert(sorted@[b] == before[b - 1]);
                    }
                }
            }
            i += 1;
        }
        assert(orig.take(i as int) =~= orig);
        self.lines = sorted;
    }
}

} // verus!
