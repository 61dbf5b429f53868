//! The types of the lines of a report.
use vstd::prelude::*;
use crate::command_output::CommandStream;
use crate::report::Line;
use crate::tty::CSI_FAIL_BADGE;

verus! {

/// a kind of section
#[derive(Debug, Clone, Copy, PartialEq, Eq, Structural)]
pub enum Kind {
    /// a warning
    Warning,
    /// an error
    Error,
    /// a test failure
    TestFail,
    /// a test output (may be a failure, or just --show-output)
    TestOutput,
    /// a sum of errors and/or warnings, typically occurring
    /// at the end of the compilation of a package
    Sum,
}

#[derive(Debug, Clone, Copy, PartialEq, Eq, Structural)]
pub enum LineType {
    /// the start of a section
    Title(Kind),
    /// the end of a section (not part of the section)
    SectionEnd,
    /// a line locating the problem
    Location,
    /// the line saying if a test was passed
    TestResult(bool),
    /// a suggestion to try with backtrace
    BacktraceSuggestion,
    /// a line we know is useless noise
    Garbage,
    /// Raw line, unclassified
    Raw(CommandStream),
    /// Continuation of a previous line
    Continuation {
        /// offset to count back to get to first (starting at 1)
        offset: usize,
        /// whether the line is a summary
        summary: bool,
    },
    /// any other line
    Normal,
}

/// The badge drawn before the first line of an item, depending on its kind
#[derive(Debug, Clone, Copy, PartialEq, Eq, Structural)]
pub enum TitleBadge {
    /// black on red
    Error,
    /// dark on orange
    TestFail,
    /// black on yellow
    Warning,
}

/// Whether a line of the given type is shown in summary mode
pub open spec fn spec_is_summary(t: LineType) -> bool {
    match t {
        LineType::Normal | LineType::Raw(_) => false,
        LineType::Continuation { summary, .. } => summary,
        _ => true,
    }
}

/// The type of the line at `idx`, continuation lines taking the type of
/// the line they continue
pub open spec fn spec_at_index_in(idx: int, lines: Seq<Line>) -> Option<LineType> {
    if 0 <= idx < lines.len() {
        match lines[idx].line_type {
            LineType::Continuation { offset, .. } => if offset > idx {
                None
            } else {
                Some(lines[idx - offset].line_type)
            },
            t => Some(t),
        }
    } else {
        None
    }
}

impl LineType {
    /// Width on screen for the specific prefix of line of this type
    pub fn cols(self) -> (r: usize)
        ensures
            r == (if self is Title { 3usize } else { 0usize }),
    {
        match self {
            Self::Title(_) => 3,
            _ => 0,
        }
    }

    pub fn at_index_in(idx: usize, lines: &[Line]) -> (r: Option<Self>)
        ensures
            r == spec_at_index_in(idx as int, lines@),
    {
        if idx >= lines.len() {
            return None;
        }
        match lines[idx].line_type {
            Self::Continuation { offset, .. } => {
                if offset > idx {
                    return None;
                }
                let idx = idx - offset;
                Some(lines[idx].line_type)
            },
            line_type => Some(line_type),
        }
    }

    pub fn is_summary(self) -> (r: bool)
        ensures
            r == spec_is_summary(self),
    {
        match self {
            Self::Normal | Self::Raw(_) => false,
            Self::Continuation { summary, .. } => summary,
            _ => true,
        }
    }

    pub fn matches(self, summary: bool) -> (r: bool)
        ensures
            r == (!summary || spec_is_summary(self)),
    {
        !summary || self.is_summary()
    }

    /// What to draw before the line: for the titles of errors, test
    /// failures and warnings, a badge with the number of the item, centered
    /// on 3 columns
    pub fn draw(self, item_idx: usize) -> (r: Option<(TitleBadge, String)>)
        ensures
            match r {
                Some((badge, text)) => Some(badge) == title_badge(self) && text@ == centered3(
                    decimal(item_idx as nat),
                ),
                None => title_badge(self) is None,
            },
    {
        let badge = match self {
            Self::Title(Kind::Error) => TitleBadge::Error,
            Self::Title(Kind::TestFail) | Self::Title(Kind::TestOutput) => TitleBadge::TestFail,
            Self::Title(Kind::Warning) => TitleBadge::Warning,
            _ => {
                return None;
            },
        };
        Some((badge, centered3_exec(decimal_exec(item_idx))))
    }
}

/// The background of a badge drawn in black and bold
#[derive(Debug, Clone, Copy, PartialEq, Eq, Structural)]
pub enum BadgeBackground {
    Red,
    Yellow,
}

/// What to write before a title: characters to write as they are, or a
/// text to style in black and bold on a background (which the terminal
/// library styles, according to the terminal and the environment)
#[derive(Debug, PartialEq, Eq)]
pub enum BadgeOutput {
    Written(String),
    BlackBoldOn(BadgeBackground, String),
}

pub enum BadgeOutputView {
    Written(Seq<char>),
    BlackBoldOn(BadgeBackground, Seq<char>),
}

impl View for BadgeOutput {
    type V = BadgeOutputView;

    open spec fn view(&self) -> BadgeOutputView {
        match self {
            BadgeOutput::Written(s) => BadgeOutputView::Written(s@),
            BadgeOutput::BlackBoldOn(b, s) => BadgeOutputView::BlackBoldOn(*b, s@),
        }
    }
}

/// The badge written before a title: the number of its item, centered on
/// 3 columns, black on red for errors, black on yellow for warnings, and
/// dark on orange, with the control sequences written out, for test
/// failures
pub open spec fn badge_output(t: LineType, item_idx: nat) -> Option<BadgeOutputView> {
    let text = centered3(decimal(item_idx));
    match title_badge(t) {
        Some(TitleBadge::Error) => Some(BadgeOutputView::BlackBoldOn(BadgeBackground::Red, text)),
        Some(TitleBadge::TestFail) => Some(
            BadgeOutputView::Written(CSI_FAIL_BADGE@ + text + "\u{1b}[0m\u{1b}[0m"@),
        ),
        Some(TitleBadge::Warning) => Some(BadgeOutputView::BlackBoldOn(BadgeBackground::Yellow, text)),
        None => None,
    }
}

impl LineType {
    /// What to write before the line: for the titles of errors, test
    /// failures and warnings, the badge with the number of the item
    pub fn badge(self, item_idx: usize) -> (r: Option<BadgeOutput>)
        ensures
            match r {
                Some(b) => badge_output(self, item_idx as nat) == Some(b@),
                None => badge_output(self, item_idx as nat) is None,
            },
    {
        match self.draw(item_idx) {
            Some((TitleBadge::Error, text)) => Some(BadgeOutput::BlackBoldOn(BadgeBackground::Red, text)),
            Some((TitleBadge::TestFail, text)) => {
                let mut r = String::new();
                crate::text::push_all(&mut r, CSI_FAIL_BADGE);
                crate::text::push_all(&mut r, text.as_str());
                crate::text::push_all(&mut r, "\u{1b}[0m\u{1b}[0m");
                assert(r@ =~= CSI_FAIL_BADGE@ + text@ + "\u{1b}[0m\u{1b}[0m"@);
                Some(BadgeOutput::Written(r))
            },
            Some((TitleBadge::Warning, text)) => Some(BadgeOutput::BlackBoldOn(BadgeBackground::Yellow, text)),
            None => None,
        }
    }
}

/// The badge drawn before the titles which get one
pub open spec fn title_badge(t: LineType) -> Option<TitleBadge> {
    match t {
        LineType::Title(Kind::Error) => Some(TitleBadge::Error),
        LineType::Title(Kind::TestFail) | LineType::Title(Kind::TestOutput) => Some(
            TitleBadge::TestFail,
        ),
        LineType::Title(Kind::Warning) => Some(TitleBadge::Warning),
        _ => None,
    }
}

/// The character of a decimal digit
pub open spec fn digit_char(d: nat) -> char {
    if d == 0 {
        '0'
    } else if d == 1 {
        '1'
    } else if d == 2 {
        '2'
    } else if d == 3 {
        '3'
    } else if d == 4 {
        '4'
    } else if d == 5 {
        '5'
    } else if d == 6 {
        '6'
    } else if d == 7 {
        '7'
    } else if d == 8 {
        '8'
    } else {
        '9'
    }
}

/// The decimal writing of a number
pub open spec fn decimal(n: nat) -> Seq<char>
    decreases n,
{
    if n < 10 {
        seq![digit_char(n)]
    } else {
        decimal(n / 10).push(digit_char(n % 10))
    }
}

/// The decimal writing of numbers below 1000 has at most 3 digits, so their
/// badge text is exactly 3 columns wide
pub proof fn lemma_badge_width(n: nat)
    requires
        n < 1000,
    ensures
        centered3(decimal(n)).len() == 3,
{
    reveal_with_fuel(decimal, 3);
    if n < 10 {
        assert(decimal(n).len() == 1);
    } else if n < 100 {
        assert(decimal(n / 10).len() == 1);
        assert(decimal(n).len() == 2);
    } else {
        assert(n / 10 >= 10);
        assert((n / 10) / 10 < 10);
        assert(decimal((n / 10) / 10).len() == 1);
        assert(decimal(n / 10).len() == 2);
        assert(decimal(n).len() == 3);
    }
}

/// The text centered on 3 columns, the extra space going to the right
pub open spec fn centered3(s: Seq<char>) -> Seq<char> {
    if s.len() >= 3 {
        s
    } else {
        let pad = (3 - s.len()) as nat;
        Seq::new(pad / 2, |i: int| ' ') + s + Seq::new((pad - pad / 2) as nat, |i: int| ' ')
    }
}

/// The decimal writing of a number
pub fn decimal_exec(n: usize) -> (r: String)
    ensures
        r@ == decimal(n as nat),
    decreases n,
{
    let d = n % 10;
    let c = if d == 0 {
        '0'
    } else if d == 1 {
        '1'
    } else if d == 2 {
        '2'
    } else if d == 3 {
        '3'
    } else if d == 4 {
        '4'
    } else if d == 5 {
        '5'
    } else if d == 6 {
        '6'
    } else if d == 7 {
        '7'
    } else if d == 8 {
        '8'
    } else {
        '9'
    };
    if n < 10 {
        let mut s = String::new();
        crate::text::push_char(&mut s, c);
        assert(s@ =~= seq![digit_char(n as nat)]);
        s
    } else {
        let mut s = decimal_exec(n / 10);
        crate::text::push_char(&mut s, c);
        s
    }
}

/// The text centered on 3 columns
pub fn centered3_exec(s: String) -> (r: String)
    ensures
        r@ == centered3(s@),
{
    let len = s.as_str().unicode_len();
    if len >= 3 {
        return s;
    }
    let pad = 3 - len;
    let mut r = String::new();
    let mut i: usize = 0;
    while i < pad / 2
        invariant
            i <= pad / 2,
            r@ == Seq::new(i as nat, |k: int| ' '),
        decreases pad / 2 - i,
    {
        crate::text::push_char(&mut r, ' ');
        assert(r@ =~= Seq::new((i + 1) as nat, |k: int| ' '));
        i += 1;
    }
    let ghost left = r@;
    r.append(s.as_str());
    let mut j: usize = 0;
    while j < pad - pad / 2
        invariant
            j <= pad - pad / 2,
            r@ == left + s@ + Seq::new(j as nat, |k: int| ' '),
        decreases pad - pad / 2 - j,
    {
        crate::text::push_char(&mut r, ' ');
        assert(r@ =~= left + s@ + Seq::new((j + 1) as nat, |k: int| ' '));
        j += 1;
    }
    r
}

} // verus!
