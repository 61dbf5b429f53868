//! Utilities related to BURP, the format in which the analyzers
//! present the items they recognize.
use vstd::prelude::*;
use crate::tline::{tstring_view, tstrings_view, TLine, TString, TStringView, clone_tstrings};
use crate::tty::{CSI_BOLD_BLUE, CSI_BOLD_RED, CSI_BOLD_YELLOW};

verus! {

/// The view of a BURP location line
pub open spec fn location_line_view(location: Seq<char>) -> Seq<TStringView> {
    seq![tstring_view(CSI_BOLD_BLUE@, "   --> "@), tstring_view(""@, location)]
}

/// The view of a BURP title line made of a level and a message
pub open spec fn title_line_view(
    csi: Seq<char>,
    level: Seq<char>,
    message: Seq<TStringView>,
) -> Seq<TStringView> {
    seq![tstring_view(csi, level), tstring_view(""@, ": "@)] + message
}

/// The view of a BURP error title with an unstyled message
pub open spec fn error_line_view(error: Seq<char>) -> Seq<TStringView> {
    title_line_view(CSI_BOLD_RED@, "error"@, seq![tstring_view(""@, error)])
}

/// The view of a BURP test failure title with an unstyled message
pub open spec fn failure_line_view(error: Seq<char>) -> Seq<TStringView> {
    title_line_view(CSI_BOLD_YELLOW@, "failure"@, seq![tstring_view(""@, error)])
}

/// Make a BURP compliant location line
pub fn location_line(location: &str) -> (line: TLine)
    ensures
        line@ == location_line_view(location@),
{
    let mut line = TLine::new();
    line.strings.push(TString::new(CSI_BOLD_BLUE, "   --> "));
    line.strings.push(TString::new("", location));
    assert(line@ =~= location_line_view(location@));
    line
}

/// Make a BURP compliant error line (title)
pub fn error_line(error: &str) -> (line: TLine)
    ensures
        line@ == error_line_view(error@),
{
    let mut line = TLine::new();
    line.strings.push(TString::new(CSI_BOLD_RED, "error"));
    line.strings.push(TString::new("", ": "));
    line.strings.push(TString::new("", error));
    assert(line@ =~= title_line_view(CSI_BOLD_RED@, "error"@, seq![tstring_view(""@, error@)]));
    line
}

fn title_line_ts(csi: &str, level: &str, message: &[TString]) -> (line: TLine)
    ensures
        line@ == title_line_view(csi@, level@, tstrings_view(message@)),
{
    let mut strings = Vec::new();
    strings.push(TString::new(csi, level));
    strings.push(TString::new("", ": "));
    let ghost head = strings@;
    let mut rest = clone_tstrings(message);
    strings.append(&mut rest);
    let line = TLine { strings };
    assert(tstrings_view(head + rest@) =~= tstrings_view(head) + tstrings_view(rest@));
    assert(line@ =~= title_line_view(csi@, level@, tstrings_view(message@)));
    line
}

/// Make a BURP compliant error line (title) from styled strings
pub fn error_line_ts(error: &[TString]) -> (line: TLine)
    ensures
        line@ == title_line_view(CSI_BOLD_RED@, "error"@, tstrings_view(error@)),
{
    title_line_ts(CSI_BOLD_RED, "error", error)
}

/// Make a BURP compliant warning line (title) from styled strings
pub fn warning_line_ts(warning: &[TString]) -> (line: TLine)
    ensures
        line@ == title_line_view(CSI_BOLD_YELLOW@, "warning"@, tstrings_view(warning@)),
{
    title_line_ts(CSI_BOLD_YELLOW, "warning", warning)
}

/// Make a BURP compliant test failure line (title)
/// (this one isn't based on cargo)
pub fn failure_line(error: &str) -> (line: TLine)
    ensures
        line@ == failure_line_view(error@),
{
    let mut line = TLine::new();
    line.strings.push(TString::new(CSI_BOLD_YELLOW, "failure"));
    line.strings.push(TString::new("", ": "));
    line.strings.push(TString::new("", error));
    assert(line@ =~= title_line_view(
        CSI_BOLD_YELLOW@,
        "failure"@,
        seq![tstring_view(""@, error@)],
    ));
    line
}

} // verus!
