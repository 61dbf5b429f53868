//! Analyzers for C++ compilers and for the doctest C++ test framework
use vstd::prelude::*;
use crate::analysis::analyzer::{AnalysisError, Analyzer};
use crate::analysis::item_accumulator::{acc_empty, acc_lines, acc_push, acc_start, AccView, ItemAccumulator};
use crate::analysis::line_type::{Kind, LineType};
use crate::burp;
use crate::burp::{location_line_view, title_line_view};
use crate::command_output::{output_lines_view, CommandOutput, CommandOutputLine, CommandOutputLineView};
use crate::report::{lines_view, stats_of, LineView, Report};
use crate::text::{
    find,
    find_char_from,
    first_char_from,
    lemma_first_char_from,
    first_occurrence,
    lemma_first_occurrence,
    skip_spaces,
    to_chars,
    trim,
    trim_bounds,
    trim_start_spaces,
};
use crate::tline::{clone_tstrings, tstring_view, tstrings_view, TLine, TString, TStringView};
use crate::tty::{CSI_BOLD_RED, CSI_BOLD_YELLOW};

verus! {

/// The level of the first marker ("error:", then "warning:") found in the
/// text, and the position after the marker and the space following it
/// (capped by the length of the text)
#[verifier::opaque]
pub open spec fn marker_in(raw: Seq<char>) -> Option<(Kind, int)> {
    match first_occurrence(raw, "error:"@) {
        Some(f) => Some(
            (
                Kind::Error,
                if f + "error: "@.len() <= raw.len() {
                    f + "error: "@.len()
                } else {
                    raw.len() as int
                },
            ),
        ),
        None => match first_occurrence(raw, "warning:"@) {
            Some(f) => Some(
                (
                    Kind::Warning,
                    if f + "warning: "@.len() <= raw.len() {
                        f + "warning: "@.len()
                    } else {
                        raw.len() as int
                    },
                ),
            ),
            None => None,
        },
    }
}

/// Whether cutting the text after the marker and the character following
/// it falls on a character boundary: that character, when there's one, is
/// encoded on one byte
#[verifier::opaque]
pub open spec fn marker_cut_ok(raw: Seq<char>) -> bool {
    match first_occurrence(raw, "error:"@) {
        Some(f) => f + "error:"@.len() >= raw.len() || (raw[f + "error:"@.len()] as u32) < 128,
        None => match first_occurrence(raw, "warning:"@) {
            Some(f) => f + "warning:"@.len() >= raw.len() || (raw[f + "warning:"@.len()] as u32)
                < 128,
            None => true,
        },
    }
}

/// The index of the first section holding a marker
#[verifier::opaque]
pub open spec fn first_marker_section(l: Seq<TStringView>) -> Option<int> {
    if exists|i: int| 0 <= i < l.len() && marker_in(l[i].raw) is Some {
        Some(
            choose|i: int|
                0 <= i < l.len() && marker_in(l[i].raw) is Some && forall|j: int|
                    0 <= j < i ==> marker_in(#[trigger] l[j].raw) is None,
        )
    } else {
        None
    }
}

/// The first three parts of the text split at colons, when there are
/// at least three
#[verifier::opaque]
pub open spec fn three_pieces(raw: Seq<char>) -> Option<(Seq<char>, Seq<char>, Seq<char>)> {
    match first_char_from(raw, ':', 0) {
        Some(c1) => match first_char_from(raw, ':', c1 + 1) {
            Some(c2) => Some(
                (
                    raw.subrange(0, c1),
                    raw.subrange(c1 + 1, c2),
                    match first_char_from(raw, ':', c2 + 1) {
                        Some(c3) => raw.subrange(c2 + 1, c3),
                        None => raw.skip(c2 + 1),
                    },
                ),
            ),
            None => None,
        },
        None => None,
    }
}

/// The index of the first section, up to `upto`, holding at least two colons
#[verifier::opaque]
pub open spec fn first_location_section(l: Seq<TStringView>, upto: int) -> Option<int> {
    if exists|i: int| 0 <= i <= upto && i < l.len() && three_pieces(l[i].raw) is Some {
        Some(
            choose|i: int|
                0 <= i <= upto && i < l.len() && three_pieces(l[i].raw) is Some && forall|j: int|
                    0 <= j < i ==> three_pieces(#[trigger] l[j].raw) is None,
        )
    } else {
        None
    }
}

/// A diagnostic of a C++ compiler
pub struct CppDiagView {
    pub level: Kind,
    pub path: Seq<char>,
    pub line: Seq<char>,
    pub column: Seq<char>,
    pub message: Seq<TStringView>,
}

/// Lines on which the recognition can be done: the cut of the level
/// section after the marker falls on a character boundary
pub open spec fn cpp_line_ok(l: Seq<TStringView>) -> bool {
    match first_marker_section(l) {
        Some(pos) => first_location_section(l, pos) is None || marker_cut_ok(l[pos].raw),
        None => true,
    }
}

/// The start of the message, taken from the level section: what follows the
/// marker there, with its style, or nothing when the marker section holds
/// only the marker
pub open spec fn cpp_message_head(section: TStringView, kind_end: int) -> Seq<TStringView> {
    let rest = trim_start_spaces(section.raw.skip(kind_end));
    if rest.len() == 0 {
        Seq::empty()
    } else {
        seq![tstring_view(section.csi, rest)]
    }
}

/// The diagnostic of a line like "[path:line:column:] [level:] [message...]",
/// each part being in a potentially styled section
pub open spec fn spec_recognize_cpp(l: Seq<TStringView>) -> Option<CppDiagView> {
    match first_marker_section(l) {
        None => None,
        Some(pos) => {
            let (level, kind_end) = marker_in(l[pos].raw).unwrap();
            match first_location_section(l, pos) {
                None => None,
                Some(li) => {
                    let (p0, p1, p2) = three_pieces(l[li].raw).unwrap();
                    Some(
                        CppDiagView {
                            level,
                            path: trim(p0),
                            line: trim(p1),
                            column: trim(p2),
                            message: cpp_message_head(l[pos], kind_end) + l.skip(pos + 1),
                        },
                    )
                },
            }
        },
    }
}

/// A diagnostic of a C++ compiler
pub struct Diagnostic<'l> {
    pub level: Kind,
    pub path: &'l str,
    pub line: &'l str,
    pub column: &'l str,
    pub message: Vec<TString>,
}

fn find_marker(raw: &str) -> (r: Option<(Kind, usize)>)
    ensures
        match (r, marker_in(raw@)) {
            (Some((k, e)), Some((sk, se))) => k == sk && e == se && e <= raw@.len(),
            (None, None) => true,
            _ => false,
        },
{
    let chars = to_chars(raw);
    proof {
        reveal(marker_in);
        lemma_first_occurrence(raw@, "error:"@);
        lemma_first_occurrence(raw@, "warning:"@);
    }
    if let Some(found) = find(chars.as_slice(), to_chars("error:").as_slice()) {
        let marker_len = to_chars("error: ").len();
        let end = if found <= chars.len() && marker_len <= chars.len() - found {
            found + marker_len
        } else {
            chars.len()
        };
        return Some((Kind::Error, end));
    }
    if let Some(found) = find(chars.as_slice(), to_chars("warning:").as_slice()) {
        let marker_len = to_chars("warning: ").len();
        let end = if found <= chars.len() && marker_len <= chars.len() - found {
            found + marker_len
        } else {
            chars.len()
        };
        return Some((Kind::Warning, end));
    }
    None
}

fn find_three_pieces(raw: &str) -> (r: Option<(&str, &str, &str)>)
    ensures
        match (r, three_pieces(raw@)) {
            (Some((a, b, c)), Some((sa, sb, sc))) => a@ == trim(sa) && b@ == trim(sb) && c@ == trim(sc),
            (None, None) => true,
            _ => false,
        },
{
    let chars = to_chars(raw);
    let n = chars.len();
    proof {
        reveal(three_pieces);
        lemma_first_char_from(raw@, ':', 0);
    }
    let Some(c1) = find_char_from(chars.as_slice(), ':', 0) else {
        return None;
    };
    proof {
        lemma_first_char_from(raw@, ':', c1 + 1);
    }
    let Some(c2) = find_char_from(chars.as_slice(), ':', c1 + 1) else {
        return None;
    };
    proof {
        lemma_first_char_from(raw@, ':', c2 + 1);
    }
    let end = match find_char_from(chars.as_slice(), ':', c2 + 1) {
        Some(c3) => c3,
        None => n,
    };
    proof {
        assert(raw@.skip(c2 + 1) =~= raw@.subrange(c2 + 1, n as int));
    }
    let (a0, a1) = trim_bounds(chars.as_slice(), 0, c1);
    let (b0, b1) = trim_bounds(chars.as_slice(), c1 + 1, c2);
    let (d0, d1) = trim_bounds(chars.as_slice(), c2 + 1, end);
    Some((raw.substring_char(a0, a1), raw.substring_char(b0, b1), raw.substring_char(d0, d1)))
}

/// The first section holding a marker, with the marker's level and the end
/// of the marker in the section
fn find_marker_section(l: &[TString]) -> (r: Option<(usize, Kind, usize)>)
    ensures
        match (r, first_marker_section(tstrings_view(l@))) {
            (Some((i, k, e)), Some(si)) => i == si && i < l@.len() && e <= l@[i as int].raw@.len()
                && marker_in(l@[i as int].raw@) == Some((k, e as int)),
            (None, None) => true,
            _ => false,
        },
{
    let ghost lv = tstrings_view(l@);
    let mut pos: usize = 0;
    while pos < l.len()
        invariant
            pos <= l@.len() == lv.len(),
            lv == tstrings_view(l@),
            forall|j: int| 0 <= j < pos ==> marker_in(#[trigger] lv[j].raw) is None,
        decreases l@.len() - pos,
    {
        assert(lv[pos as int] == l@[pos as int]@);
        if let Some((k, e)) = find_marker(l[pos].raw.as_str()) {
            proof {
                reveal(first_marker_section);
                let c = choose|i: int|
                    0 <= i < lv.len() && marker_in(lv[i].raw) is Some && forall|j: int|
                        0 <= j < i ==> marker_in(#[trigger] lv[j].raw) is None;
                assert(0 <= pos < lv.len() && marker_in(lv[pos as int].raw) is Some);
                if c < pos {
                    assert(marker_in(lv[c].raw) is None);
                } else if c > pos {
                    assert(marker_in(lv[pos as int].raw) is None);
                }
            }
            return Some((pos, k, e));
        }
        pos += 1;
    }
    proof {
        reveal(first_marker_section);
        if exists|i: int| 0 <= i < lv.len() && marker_in(lv[i].raw) is Some {
            let i = choose|i: int| 0 <= i < lv.len() && marker_in(lv[i].raw) is Some;
            assert(marker_in(lv[i].raw) is None);
        }
    }
    None
}

/// The first section, up to `upto`, holding at least two colons, with its
/// first three parts trimmed
fn find_location_section(l: &[TString], upto: usize) -> (r: Option<(usize, &str, &str, &str)>)
    requires
        upto < l@.len(),
    ensures
        match (r, first_location_section(tstrings_view(l@), upto as int)) {
            (Some((i, a, b, c)), Some(si)) => i == si && i <= upto && match three_pieces(l@[i as int].raw@) {
                Some((sa, sb, sc)) => a@ == trim(sa) && b@ == trim(sb) && c@ == trim(sc),
                None => false,
            },
            (None, None) => true,
            _ => false,
        },
{
    let ghost lv = tstrings_view(l@);
    let mut li: usize = 0;
    while li <= upto
        invariant
            upto < l@.len() == lv.len(),
            lv == tstrings_view(l@),
            li <= upto + 1,
            forall|j: int| 0 <= j < li ==> three_pieces(#[trigger] lv[j].raw) is None,
        decreases upto + 1 - li,
    {
        assert(lv[li as int] == l@[li as int]@);
        if let Some((a, b, c)) = find_three_pieces(l[li].raw.as_str()) {
            proof {
                reveal(first_location_section);
                let c = choose|i: int|
                    0 <= i <= upto && i < lv.len() && three_pieces(lv[i].raw) is Some && forall|j: int|
                        0 <= j < i ==> three_pieces(#[trigger] lv[j].raw) is None;
                assert(0 <= li <= upto && three_pieces(lv[li as int].raw) is Some);
                if c < li {
                    assert(three_pieces(lv[c].raw) is None);
                } else if c > li {
                    assert(three_pieces(lv[li as int].raw) is None);
                }
            }
            return Some((li, a, b, c));
        }
        li += 1;
    }
    proof {
        reveal(first_location_section);
        if exists|i: int| 0 <= i <= upto && i < lv.len() && three_pieces(lv[i].raw) is Some {
            let i = choose|i: int| 0 <= i <= upto && i < lv.len() && three_pieces(lv[i].raw) is Some;
            assert(three_pieces(lv[i].raw) is None);
        }
    }
    None
}

/// Expect that diagnostics look like the following:
///
/// ```text
/// [path/to/source:line:column:] [level:] [message...]
/// ```
///
/// ... where each part is contained within a potentially styled section.
pub fn recognize_diagnostic(line: &TLine) -> (r: Option<Diagnostic<'_>>)
    requires
        cpp_line_ok(line@),
    ensures
        match (r, spec_recognize_cpp(line@)) {
            (Some(d), Some(v)) => d.level == v.level && d.path@ == v.path && d.line@ == v.line
                && d.column@ == v.column && tstrings_view(d.message@) == v.message,
            (None, None) => true,
            _ => false,
        },
{
    let l = line.strings.as_slice();
    let ghost lv = line@;
    let n = l.len();
    let Some((pos, level, kind_end)) = find_marker_section(l) else {
        return None;
    };
    let Some((li, path, loc_line, loc_col)) = find_location_section(l, pos) else {
        return None;
    };
    let level_section = &l[pos];
    let raw_chars = to_chars(level_section.raw.as_str());
    let start = skip_spaces(raw_chars.as_slice(), kind_end);
    let first = TString {
        csi: level_section.csi.clone(),
        raw: level_section.raw.as_str().substring_char(start, raw_chars.len()).to_owned(),
    };
    let mut message = Vec::new();
    proof {
        assert(raw_chars@.skip(start as int) =~= raw_chars@.subrange(start as int, raw_chars@.len() as int));
        assert(lv[pos as int] == l@[pos as int]@);
    }
    if start < raw_chars.len() {
        message.push(first);
    }
    proof {
        assert(tstrings_view(message@) =~= cpp_message_head(lv[pos as int], kind_end as int)
            + lv.subrange(pos + 1, pos + 1));
    }
    let mut i = pos + 1;
    while i < n
        invariant
            n == l@.len() == lv.len(),
            lv == tstrings_view(l@),
            pos < n,
            pos + 1 <= i <= n,
            tstrings_view(message@) == cpp_message_head(lv[pos as int], kind_end as int)
                + lv.subrange(pos + 1, i as int),
        decreases n - i,
    {
        let ghost before = message@;
        message.push(l[i].clone());
        proof {
            assert(lv.subrange(pos + 1, i + 1) =~= lv.subrange(pos + 1, i as int).push(lv[i as int]));
            assert(lv[i as int] == l@[i as int]@);
            assert(message@ == before.push(l@[i as int]));
            assert(tstrings_view(message@) =~= tstrings_view(before).push(l@[i as int]@));
        }
        i += 1;
    }
    assert(lv.subrange(pos + 1, n as int) =~= lv.skip(pos + 1));
    assert(lv[li as int] == l@[li as int]@);
    assert(lv[pos as int] == l@[pos as int]@);
    Some(Diagnostic { level, path, line: loc_line, column: loc_col, message })
}


fn cut_ok(raw: &str) -> (r: bool)
    ensures
        r == marker_cut_ok(raw@),
{
    reveal(marker_cut_ok);
    let chars = to_chars(raw);
    let n = chars.len();
    let error_pat = to_chars("error:");
    let warning_pat = to_chars("warning:");
    proof {
        lemma_first_occurrence(raw@, "error:"@);
        lemma_first_occurrence(raw@, "warning:"@);
    }
    let found = match find(chars.as_slice(), error_pat.as_slice()) {
        Some(f) => Some((f, error_pat.len())),
        None => match find(chars.as_slice(), warning_pat.as_slice()) {
            Some(f) => Some((f, warning_pat.len())),
            None => None,
        },
    };
    match found {
        Some((f, len)) => f + len >= n || (chars[f + len] as u32) < 128,
        None => true,
    }
}

/// Whether the recognition can be done on the line, see [`cpp_line_ok`]
pub fn is_cpp_line_ok(line: &TLine) -> (r: bool)
    ensures
        r == cpp_line_ok(line@),
{
    let l = line.strings.as_slice();
    match find_marker_section(l) {
        Some((pos, _, _)) => match find_location_section(l, pos) {
            Some(_) => {
                assert(line@[pos as int] == l@[pos as int]@);
                cut_ok(l[pos].raw.as_str())
            },
            None => true,
        },
        None => true,
    }
}

/// The title line of a C++ diagnostic
pub open spec fn cpp_title(level: Kind, message: Seq<TStringView>) -> Seq<TStringView> {
    if level == Kind::Error {
        title_line_view(CSI_BOLD_RED@, "error"@, message)
    } else {
        title_line_view(CSI_BOLD_YELLOW@, "warning"@, message)
    }
}

/// The step of the report building for one line of C++ compiler output
pub open spec fn cpp_step(acc: AccView, line: CommandOutputLineView) -> AccView {
    match spec_recognize_cpp(line.content) {
        Some(d) => {
            let a = acc_push(acc_start(acc, d.level), LineType::Title(d.level), cpp_title(d.level, d.message));
            acc_push(
                a,
                LineType::Location,
                location_line_view(d.path + ":"@ + d.line + ":"@ + d.column),
            )
        },
        None => acc_push(acc, LineType::Normal, line.content),
    }
}

/// The lines of the report of C++ compiler output
pub open spec fn cpp_report_lines(lines: Seq<CommandOutputLineView>) -> Seq<LineView> {
    acc_lines(lines.fold_left(acc_empty(), |a: AccView, l: CommandOutputLineView| cpp_step(a, l)))
}

/// Build the report of the output of a C++ compiler, failing when a line
/// can't be recognized (see [`cpp_line_ok`])
pub fn build_report(lines: &[CommandOutputLine]) -> (r: Result<Report, AnalysisError>)
    ensures
        match r {
            Ok(report) => (forall|i: int| 0 <= i < lines@.len() ==> cpp_line_ok(#[trigger] lines@[i].content@))
                && lines_view(report.lines@) == cpp_report_lines(output_lines_view(lines@))
                && report.stats == stats_of(cpp_report_lines(output_lines_view(lines@)))
                && !report.suggest_backtrace && !report.has_passed_tests
                && report.failure_keys@.len() == 0,
            Err(_) => exists|i: int| 0 <= i < lines@.len() && !cpp_line_ok(#[trigger] lines@[i].content@),
        },
{
    let ghost input = output_lines_view(lines@);
    let mut items = ItemAccumulator::new();
    let mut i: usize = 0;
    while i < lines.len()
        invariant
            i <= lines@.len(),
            input == output_lines_view(lines@),
            forall|j: int| 0 <= j < i ==> cpp_line_ok(#[trigger] lines@[j].content@),
            items@ == input.take(i as int).fold_left(
                acc_empty(),
                |a: AccView, l: CommandOutputLineView| cpp_step(a, l),
            ),
        decreases lines@.len() - i,
    {
        let line = &lines[i];
        proof {
            assert(input.take(i + 1).drop_last() =~= input.take(i as int));
            assert(input[i as int] == line@);
        }
        if !is_cpp_line_ok(&line.content) {
            return Err(AnalysisError { message: String::from_str("level marker cut within a character") });
        }
        match recognize_diagnostic(&line.content) {
            Some(diagnostic) => {
                let content = match diagnostic.level {
                    Kind::Error => burp::error_line_ts(diagnostic.message.as_slice()),
                    _ => burp::warning_line_ts(diagnostic.message.as_slice()),
                };
                items.start_item(diagnostic.level);
                items.push_line(LineType::Title(diagnostic.level), content);
                let mut location = String::from_str(diagnostic.path);
                location.append(":");
                location.append(diagnostic.line);
                location.append(":");
                location.append(diagnostic.column);
                items.push_line(LineType::Location, burp::location_line(location.as_str()));
            },
            None => {
                items.push_line(LineType::Normal, line.content.clone());
            },
        }
        i += 1;
    }
    assert(input.take(lines@.len() as int) =~= input);
    Ok(items.report())
}


/// The line starting or ending the output of a doctest run
pub const DOCTEST_SEPARATOR: &'static str = "===============================================================================";

/// What a line of doctest output says
pub enum DoctestDiagnostic<'a> {
    StartTestCase(&'a str),
    Failure { location: &'a str, level: Kind, first_line: Vec<TString> },
    StartOrEnd,
}

/// What a line of doctest output says
pub enum DoctestView {
    StartTestCase(Seq<char>),
    Failure { location: Seq<char>, level: Kind, first_line: Seq<TStringView> },
    StartOrEnd,
}

pub open spec fn doctest_view(d: DoctestDiagnostic) -> DoctestView {
    match d {
        DoctestDiagnostic::StartTestCase(tc) => DoctestView::StartTestCase(tc@),
        DoctestDiagnostic::Failure { location, level, first_line } => DoctestView::Failure {
            location: location@,
            level,
            first_line: tstrings_view(first_line@),
        },
        DoctestDiagnostic::StartOrEnd => DoctestView::StartOrEnd,
    }
}

/// What a line of doctest output says, given the name of the current test case
pub open spec fn spec_recognize_doctest(current: Seq<char>, l: Seq<TStringView>) -> Option<DoctestView> {
    if l.len() > 0 && l[0].raw == DOCTEST_SEPARATOR@ {
        Some(DoctestView::StartOrEnd)
    } else if l.len() > 0 && l[0].raw == "TEST CASE:  "@ {
        Some(DoctestView::StartTestCase(if l.len() > 1 { l[1].raw } else { ""@ }))
    } else if l.len() > 1 && (l[1].raw == "WARNING: "@ || l[1].raw == "ERROR: "@ || l[1].raw
        == "FATAL ERROR: "@) {
        Some(
            DoctestView::Failure {
                location: trim(l[0].raw),
                level: if l[1].raw == "WARNING: "@ {
                    Kind::Warning
                } else {
                    Kind::Error
                },
                first_line: seq![tstring_view(""@, current), tstring_view(""@, " "@)] + l.skip(2),
            },
        )
    } else {
        None
    }
}

fn str_is(s: &str, lit: &str) -> (r: bool)
    ensures
        r == (s@ == lit@),
{
    crate::text::str_eq(s, lit)
}

pub fn recognize_doctest_line<'l>(current_test_case: &str, line: &'l TLine) -> (r: Option<
    DoctestDiagnostic<'l>,
>)
    ensures
        match (r, spec_recognize_doctest(current_test_case@, line@)) {
            (Some(d), Some(v)) => doctest_view(d) == v,
            (None, None) => true,
            _ => false,
        },
{
    let l = line.strings.as_slice();
    let n = l.len();
    proof {
        if n > 0 {
            assert(line@[0] == l@[0]@);
        }
        if n > 1 {
            assert(line@[1] == l@[1]@);
        }
    }
    if n > 0 && str_is(l[0].raw.as_str(), DOCTEST_SEPARATOR) {
        return Some(DoctestDiagnostic::StartOrEnd);
    }
    if n > 0 && str_is(l[0].raw.as_str(), "TEST CASE:  ") {
        let tc = if n > 1 {
            l[1].raw.as_str()
        } else {
            ""
        };
        return Some(DoctestDiagnostic::StartTestCase(tc));
    }
    if n > 1 {
        let second = l[1].raw.as_str();
        let is_warning = str_is(second, "WARNING: ");
        if is_warning || str_is(second, "ERROR: ") || str_is(second, "FATAL ERROR: ") {
            let level = if is_warning {
                Kind::Warning
            } else {
                Kind::Error
            };
            let mut first_line = Vec::new();
            first_line.push(TString::new("", current_test_case));
            first_line.push(TString::new("", " "));
            let ghost head = first_line@;
            let mut rest = clone_tstrings(l);
            let ghost all = rest@;
            let mut tail = rest.split_off(2);
            first_line.append(&mut tail);
            let first = l[0].raw.as_str();
            let first_chars = to_chars(first);
            let (a, b) = trim_bounds(first_chars.as_slice(), 0, first_chars.len());
            let location = first.substring_char(a, b);
            proof {
                assert(first_chars@.subrange(0, first_chars@.len() as int) =~= first_chars@);
                assert(tstrings_view(all) == tstrings_view(l@));
                assert(tstrings_view(all.skip(2)) =~= tstrings_view(all).skip(2));
                assert(tstrings_view(head + all.skip(2)) =~= tstrings_view(head) + tstrings_view(all.skip(2)));
                assert(tstrings_view(head) =~= seq![tstring_view(""@, current_test_case@), tstring_view(""@, " "@)]);
            }
            return Some(DoctestDiagnostic::Failure { location, level, first_line });
        }
    }
    None
}

/// The state of the report building of doctest output: the accumulated
/// items, the name of the current test case, the count of empty lines
/// since the last failure
pub struct DoctestState {
    pub acc: AccView,
    pub current: Seq<char>,
    pub empty_count: nat,
}

/// The name given to failures out of any test case
pub const UNKNOWN_TEST: &'static str = "(unknown test)";

/// Whether all the strings of the line are empty
pub open spec fn all_raw_empty(l: Seq<TStringView>) -> bool {
    forall|i: int| 0 <= i < l.len() ==> #[trigger] l[i].raw.len() == 0
}

/// The step of the report building for one line of doctest output
pub open spec fn doctest_step(s: DoctestState, line: CommandOutputLineView) -> DoctestState {
    match spec_recognize_doctest(s.current, line.content) {
        Some(DoctestView::StartTestCase(tc)) => DoctestState { current: tc, ..s },
        Some(DoctestView::Failure { location, level, first_line }) => {
            let a = acc_push(
                acc_start(s.acc, Kind::TestFail),
                LineType::Title(Kind::TestFail),
                cpp_title(level, first_line),
            );
            DoctestState {
                acc: acc_push(a, LineType::Location, location_line_view(location)),
                empty_count: 0,
                ..s
            }
        },
        Some(DoctestView::StartOrEnd) => DoctestState { current: UNKNOWN_TEST@, ..s },
        None => DoctestState {
            acc: if s.empty_count < 1 {
                acc_push(s.acc, LineType::Normal, line.content)
            } else {
                s.acc
            },
            empty_count: if all_raw_empty(line.content) {
                s.empty_count + 1
            } else {
                s.empty_count
            },
            ..s
        },
    }
}

pub open spec fn doctest_initial() -> DoctestState {
    DoctestState { acc: acc_empty(), current: UNKNOWN_TEST@, empty_count: 0 }
}

/// The lines of the report of doctest output
pub open spec fn doctest_report_lines(lines: Seq<CommandOutputLineView>) -> Seq<LineView> {
    acc_lines(lines.fold_left(doctest_initial(), |s: DoctestState, l: CommandOutputLineView| doctest_step(s, l)).acc)
}

fn all_raw_empty_exec(line: &TLine) -> (r: bool)
    ensures
        r == all_raw_empty(line@),
{
    let mut i: usize = 0;
    while i < line.strings.len()
        invariant
            i <= line.strings@.len(),
            forall|k: int| 0 <= k < i ==> #[trigger] line@[k].raw.len() == 0,
        decreases line.strings@.len() - i,
    {
        assert(line@[i as int] == line.strings@[i as int]@);
        if line.strings[i].raw.as_str().unicode_len() != 0 {
            assert(line@[i as int].raw.len() != 0);
            return false;
        }
        i += 1;
    }
    true
}

/// Build the report of the output of a doctest run
pub fn build_doctest_report(lines: &[CommandOutputLine]) -> (r: Report)
    ensures
        lines_view(r.lines@) == doctest_report_lines(output_lines_view(lines@)),
        r.stats == stats_of(doctest_report_lines(output_lines_view(lines@))),
        !r.suggest_backtrace,
        !r.has_passed_tests,
        r.failure_keys@.len() == 0,
{
    let ghost input = output_lines_view(lines@);
    let mut items = ItemAccumulator::new();
    let mut current_test_case = String::from_str(UNKNOWN_TEST);
    let mut empty_count: usize = 0;
    let mut i: usize = 0;
    while i < lines.len()
        invariant
            i <= lines@.len(),
            empty_count <= i,
            input == output_lines_view(lines@),
            (DoctestState { acc: items@, current: current_test_case@, empty_count: empty_count as nat })
                == input.take(i as int).fold_left(
                doctest_initial(),
                |s: DoctestState, l: CommandOutputLineView| doctest_step(s, l),
            ),
        decreases lines@.len() - i,
    {
        let line = &lines[i];
        proof {
            assert(input.take(i + 1).drop_last() =~= input.take(i as int));
            assert(input[i as int] == line@);
        }
        match recognize_doctest_line(current_test_case.as_str(), &line.content) {
            Some(DoctestDiagnostic::StartTestCase(tc)) => {
                current_test_case = String::from_str(tc);
            },
            Some(DoctestDiagnostic::Failure { level, location, first_line }) => {
                let content = match level {
                    Kind::Error => burp::error_line_ts(first_line.as_slice()),
                    _ => burp::warning_line_ts(first_line.as_slice()),
                };
                items.push_failure_title(content);
                items.push_line(LineType::Location, burp::location_line(location));
                empty_count = 0;
            },
            Some(DoctestDiagnostic::StartOrEnd) => {
                current_test_case = String::from_str(UNKNOWN_TEST);
            },
            None => {
                if empty_count < 1 {
                    items.push_line(LineType::Normal, line.content.clone());
                }
                if all_raw_empty_exec(&line.content) {
                    empty_count += 1;
                }
            },
        }
        i += 1;
    }
    assert(input.take(lines@.len() as int) =~= input);
    items.report()
}


/// An analyzer of the output of C++ compilers
pub struct CppAnalyzer {
    lines: Vec<CommandOutputLine>,
}

impl CppAnalyzer {
    /// The received lines
    pub closed spec fn received(&self) -> Seq<CommandOutputLineView> {
        output_lines_view(self.lines@)
    }

    pub fn new() -> (r: Self)
        ensures
            r.received() == Seq::<CommandOutputLineView>::empty(),
    {
        let r = CppAnalyzer { lines: Vec::new() };
        assert(r.received() =~= Seq::<CommandOutputLineView>::empty());
        r
    }
}

impl Analyzer for CppAnalyzer {
    fn start(&mut self)
        ensures
            final(self).received() == Seq::<CommandOutputLineView>::empty(),
    {
        self.lines.clear();
        assert(self.received() =~= Seq::<CommandOutputLineView>::empty());
    }

    fn receive_line(&mut self, line: CommandOutputLine, command_output: &mut CommandOutput)
        ensures
            final(self).received() == old(self).received().push(line@),
            final(command_output)@ == old(command_output)@.push(line@),
    {
        self.lines.push(line.clone());
        assert(self.received() =~= old(self).received().push(line@));
        command_output.push(line);
    }

    fn build_report(&mut self) -> (r: Result<Report, AnalysisError>)
        ensures
            final(self).received() == old(self).received(),
            match r {
                Ok(report) => lines_view(report.lines@) == cpp_report_lines(old(self).received())
                    && report.stats == stats_of(cpp_report_lines(old(self).received()))
                    && !report.suggest_backtrace && !report.has_passed_tests
                    && report.failure_keys@.len() == 0,
                Err(_) => exists|i: int| 0 <= i < old(self).received().len() && !cpp_line_ok(
                    #[trigger] old(self).received()[i].content,
                ),
            },
    {
        let r = build_report(self.lines.as_slice());
        proof {
            if r is Err {
                let i = choose|i: int| 0 <= i < self.lines@.len() && !cpp_line_ok(#[trigger] self.lines@[i].content@);
                assert(self.received()[i].content == self.lines@[i].content@);
            }
        }
        r
    }
}

/// An analyzer of the output of the doctest C++ test framework
pub struct CppDoctestAnalyzer {
    lines: Vec<CommandOutputLine>,
}

impl CppDoctestAnalyzer {
    /// The received lines
    pub closed spec fn received(&self) -> Seq<CommandOutputLineView> {
        output_lines_view(self.lines@)
    }

    pub fn new() -> (r: Self)
        ensures
            r.received() == Seq::<CommandOutputLineView>::empty(),
    {
        let r = CppDoctestAnalyzer { lines: Vec::new() };
        assert(r.received() =~= Seq::<CommandOutputLineView>::empty());
        r
    }
}

impl Analyzer for CppDoctestAnalyzer {
    fn start(&mut self)
        ensures
            final(self).received() == Seq::<CommandOutputLineView>::empty(),
    {
        self.lines.clear();
        assert(self.received() =~= Seq::<CommandOutputLineView>::empty());
    }

    fn receive_line(&mut self, line: CommandOutputLine, command_output: &mut CommandOutput)
        ensures
            final(self).received() == old(self).received().push(line@),
            final(command_output)@ == old(command_output)@.push(line@),
    {
        self.lines.push(line.clone());
        assert(self.received() =~= old(self).received().push(line@));
        command_output.push(line);
    }

    fn build_report(&mut self) -> (r: Result<Report, AnalysisError>)
        ensures
            final(self).received() == old(self).received(),
            match r {
                Ok(report) => lines_view(report.lines@) == doctest_report_lines(old(self).received())
                    && report.stats == stats_of(doctest_report_lines(old(self).received()))
                    && !report.suggest_backtrace && !report.has_passed_tests
                    && report.failure_keys@.len() == 0,
                Err(_) => false,
            },
    {
        Ok(build_doctest_report(self.lines.as_slice()))
    }
}
} // verus!
