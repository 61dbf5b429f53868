//! A builder of reports for the analyzers which recognize items line by line.
use vstd::prelude::*;
use crate::analysis::line_type::{Kind, LineType};
use crate::report::{lines_view, stats_of, Line, LineView, Report};
use crate::tline::{TLine, TStringView};

verus! {

/// Lines of the items being recognized, kept apart by kind
pub struct ItemAccumulator {
    curr_kind: Option<Kind>,
    errors: Vec<Line>,
    test_fails: Vec<Line>,
    warnings: Vec<Line>,
}

/// What an accumulator stands for
pub struct AccView {
    pub curr_kind: Option<Kind>,
    pub errors: Seq<LineView>,
    pub test_fails: Seq<LineView>,
    pub warnings: Seq<LineView>,
}

impl View for ItemAccumulator {
    type V = AccView;

    closed spec fn view(&self) -> AccView {
        AccView {
            curr_kind: self.curr_kind,
            errors: lines_view(self.errors@),
            test_fails: lines_view(self.test_fails@),
            warnings: lines_view(self.warnings@),
        }
    }
}

/// An accumulator without item
pub open spec fn acc_empty() -> AccView {
    AccView {
        curr_kind: None,
        errors: Seq::empty(),
        test_fails: Seq::empty(),
        warnings: Seq::empty(),
    }
}

/// The accumulator in which an item of the given kind starts
pub open spec fn acc_start(a: AccView, kind: Kind) -> AccView {
    AccView { curr_kind: Some(kind), ..a }
}

/// The accumulator in which no item is in progress
pub open spec fn acc_close(a: AccView) -> AccView {
    AccView { curr_kind: None, ..a }
}

/// A line not yet numbered
pub open spec fn new_line(line_type: LineType, content: Seq<TStringView>) -> LineView {
    LineView { item_idx: 0, line_type, content }
}

/// The accumulator in which a line is added to the current item, if
/// there's one and it's a warning, an error or a test failure
pub open spec fn acc_push(a: AccView, line_type: LineType, content: Seq<TStringView>) -> AccView {
    let line = new_line(line_type, content);
    match a.curr_kind {
        Some(Kind::Warning) => AccView { warnings: a.warnings.push(line), ..a },
        Some(Kind::Error) => AccView { errors: a.errors.push(line), ..a },
        Some(Kind::TestFail) => AccView { test_fails: a.test_fails.push(line), ..a },
        _ => a,
    }
}

/// The number of titles among the lines
pub open spec fn count_all_titles(s: Seq<LineView>) -> nat
    decreases s.len(),
{
    if s.len() == 0 {
        0
    } else {
        count_all_titles(s.drop_last()) + if s.last().line_type is Title {
            1nat
        } else {
            0nat
        }
    }
}

pub proof fn lemma_count_all_titles_bound(s: Seq<LineView>)
    ensures
        count_all_titles(s) <= s.len(),
    decreases s.len(),
{
    if s.len() > 0 {
        lemma_count_all_titles_bound(s.drop_last());
    }
}

/// The lines, each numbered with the number of titles up to it: the lines
/// of the first item get 1, those of the second one 2, etc.
/// (lines before any title get 0)
pub open spec fn number_items(s: Seq<LineView>) -> Seq<LineView> {
    Seq::new(
        s.len(),
        |i: int| LineView { item_idx: count_all_titles(s.take(i + 1)) as usize, ..s[i] },
    )
}

/// The number of titles can only grow along the lines
proof fn lemma_count_all_titles_grows(s: Seq<LineView>, i: int, j: int)
    requires
        0 <= i <= j <= s.len(),
    ensures
        count_all_titles(s.take(i)) <= count_all_titles(s.take(j)),
    decreases j - i,
{
    if i < j {
        lemma_count_all_titles_grows(s, i, j - 1);
        assert(s.take(j).drop_last() =~= s.take(j - 1));
    }
}

/// In numbered lines, the item numbers never decrease, and a title starts
/// a new item: its number is one more than that of the line before it
pub proof fn lemma_items_numbering(s: Seq<LineView>, i: int, j: int)
    requires
        0 <= i <= j < s.len(),
        s.len() <= usize::MAX,
    ensures
        number_items(s)[i].item_idx <= number_items(s)[j].item_idx,
        number_items(s)[j].content == s[j].content,
        number_items(s)[j].line_type == s[j].line_type,
        j > 0 && s[j].line_type is Title ==> number_items(s)[j].item_idx == number_items(s)[j
            - 1].item_idx + 1,
{
    lemma_count_all_titles_grows(s, i + 1, j + 1);
    lemma_count_all_titles_bound(s.take(j + 1));
    lemma_count_all_titles_bound(s.take(i + 1));
    assert(number_items(s)[j].item_idx == count_all_titles(s.take(j + 1)));
    assert(number_items(s)[i].item_idx == count_all_titles(s.take(i + 1)));
    if j > 0 {
        assert(s.take(j + 1).drop_last() =~= s.take(j));
        assert(s.take(j + 1).last() == s[j]);
        lemma_count_all_titles_bound(s.take(j));
        assert(number_items(s)[j - 1].item_idx == count_all_titles(s.take(j)));
    }
}

/// The lines of the accumulated items: errors first, then test failures,
/// then warnings, numbered by item
pub open spec fn acc_lines(a: AccView) -> Seq<LineView> {
    number_items(a.errors + a.test_fails + a.warnings)
}

/// Number the lines in place
pub fn number_lines(lines: &mut Vec<Line>)
    ensures
        lines_view(final(lines)@) == number_items(lines_view(old(lines)@)),
{
    let ghost orig = lines_view(lines@);
    let mut item_idx: usize = 0;
    let mut i: usize = 0;
    while i < lines.len()
        invariant
            i <= lines@.len() == orig.len(),
            item_idx == count_all_titles(orig.take(i as int)),
            forall|j: int| i <= j < lines@.len() ==> #[trigger] lines_view(lines@)[j] == orig[j],
            forall|j: int| 0 <= j < i ==> #[trigger] lines_view(lines@)[j] == number_items(orig)[j],
        decreases lines@.len() - i,
    {
        proof {
            assert(orig.take(i + 1).drop_last() =~= orig.take(i as int));
            lemma_count_all_titles_bound(orig.take(i + 1));
            assert(lines_view(lines@)[i as int] == lines@[i as int]@);
        }
        let is_title = matches!(lines[i].line_type, LineType::Title(_));
        if is_title {
            item_idx += 1;
        }
        let ghost before = lines@;
        let mut line = lines.remove(i);
        line.item_idx = item_idx;
        lines.insert(i, line);
        proof {
            assert(lines@ =~= before.update(i as int, line));
            assert forall|j: int| 0 <= j < lines@.len() && j != i implies #[trigger] lines_view(
                lines@,
            )[j] == lines_view(before)[j] by {}
            assert(lines_view(lines@)[i as int] == number_items(orig)[i as int]);
        }
        i += 1;
    }
    assert(lines_view(lines@) =~= number_items(orig));
}

impl ItemAccumulator {
    pub fn new() -> (r: Self)
        ensures
            r@ == acc_empty(),
    {
        let r = ItemAccumulator {
            curr_kind: None,
            errors: Vec::new(),
            test_fails: Vec::new(),
            warnings: Vec::new(),
        };
        assert(lines_view(r.errors@) =~= Seq::<LineView>::empty());
        assert(lines_view(r.test_fails@) =~= Seq::<LineView>::empty());
        assert(lines_view(r.warnings@) =~= Seq::<LineView>::empty());
        r
    }

    pub fn start_item(&mut self, kind: Kind)
        ensures
            final(self)@ == acc_start(old(self)@, kind),
    {
        self.curr_kind = Some(kind);
    }

    pub fn close_item(&mut self)
        ensures
            final(self)@ == acc_close(old(self)@),
    {
        self.curr_kind = None;
    }

    pub fn push_line(&mut self, line_type: LineType, content: TLine)
        ensures
            final(self)@ == acc_push(old(self)@, line_type, content@),
    {
        let line = Line { item_idx: 0, line_type, content };
        match self.curr_kind {
            Some(Kind::Warning) => {
                self.warnings.push(line);
                assert(lines_view(self.warnings@) =~= lines_view(old(self).warnings@).push(line@));
            },
            Some(Kind::Error) => {
                self.errors.push(line);
                assert(lines_view(self.errors@) =~= lines_view(old(self).errors@).push(line@));
            },
            Some(Kind::TestFail) => {
                self.test_fails.push(line);
                assert(lines_view(self.test_fails@) =~= lines_view(old(self).test_fails@).push(
                    line@,
                ));
            },
            _ => {},
        }
    }

    /// Start an error item, with its title
    pub fn push_error_title(&mut self, content: TLine)
        ensures
            final(self)@ == acc_push(
                acc_start(old(self)@, Kind::Error),
                LineType::Title(Kind::Error),
                content@,
            ),
    {
        self.start_item(Kind::Error);
        self.push_line(LineType::Title(Kind::Error), content);
    }

    /// Start a test failure item, with its title
    pub fn push_failure_title(&mut self, content: TLine)
        ensures
            final(self)@ == acc_push(
                acc_start(old(self)@, Kind::TestFail),
                LineType::Title(Kind::TestFail),
                content@,
            ),
    {
        self.start_item(Kind::TestFail);
        self.push_line(LineType::Title(Kind::TestFail), content);
    }

    /// The lines of the items: errors first, then test failures, then warnings
    pub fn lines(self) -> (r: Vec<Line>)
        ensures
            lines_view(r@) == acc_lines(self@),
    {
        let ItemAccumulator { curr_kind: _, errors, test_fails, warnings } = self;
        let mut lines = errors;
        let mut test_fails = test_fails;
        let mut warnings = warnings;
        let ghost e = lines@;
        let ghost t = test_fails@;
        let ghost w = warnings@;
        lines.append(&mut test_fails);
        lines.append(&mut warnings);
        assert(lines_view(e + t + w) =~= lines_view(e) + lines_view(t) + lines_view(w));
        number_lines(&mut lines);
        lines
    }

    /// The report of the accumulated items
    pub fn report(self) -> (r: Report)
        ensures
            lines_view(r.lines@) == acc_lines(self@),
            r.stats == stats_of(acc_lines(self@)),
            !r.suggest_backtrace,
            r.output@.len() == 0,
            r.failure_keys@.len() == 0,
            !r.has_passed_tests,
    {
        let lines = self.lines();
        Report::new(lines)
    }
}

} // verus!
