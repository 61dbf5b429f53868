//! Analyzers for swift tools
use vstd::prelude::*;
use crate::analysis::line_type::Kind;
use crate::burp::title_line_view;
use crate::text::{
    find,
    first_occurrence,
    lemma_first_occurrence,
    has_char,
    lemma_split_at_last_unique,
    occurs_at,
    rfind_char,
    split_at_last,
    to_chars,
    trim,
};
use crate::tline::{tstring_view, unstyled_text, TStringView};
use crate::tty::{CSI_BOLD_RED, CSI_BOLD_YELLOW};

pub mod lint;
pub mod swift_build;

verus! {

/// `location` is made of a path, a line and a column separated by colons,
/// neither the line nor the column holding a colon
pub open spec fn is_swift_location(
    location: Seq<char>,
    path: Seq<char>,
    line: Seq<char>,
    column: Seq<char>,
) -> bool {
    location == path + seq![':'] + line + seq![':'] + column && !has_char(line, ':') && !has_char(
        column,
        ':',
    )
}

/// The path, line and column of a swift location
pub open spec fn spec_parse_swift_location(location: Seq<char>) -> Option<
    (Seq<char>, Seq<char>, Seq<char>),
> {
    if exists|p: Seq<char>, l: Seq<char>, c: Seq<char>| is_swift_location(location, p, l, c) {
        Some(
            choose|p: Seq<char>, l: Seq<char>, c: Seq<char>| is_swift_location(location, p, l, c),
        )
    } else {
        None
    }
}

/// A location is split in one way at most
pub proof fn lemma_swift_location_unique(
    location: Seq<char>,
    p1: Seq<char>,
    l1: Seq<char>,
    c1: Seq<char>,
    p2: Seq<char>,
    l2: Seq<char>,
    c2: Seq<char>,
)
    requires
        is_swift_location(location, p1, l1, c1),
        is_swift_location(location, p2, l2, c2),
    ensures
        p1 == p2 && l1 == l2 && c1 == c2,
{
    assert(location =~= (p1 + seq![':'] + l1) + seq![':'] + c1);
    assert(location =~= (p2 + seq![':'] + l2) + seq![':'] + c2);
    lemma_split_at_last_unique(location, ':', p1 + seq![':'] + l1, c1, p2 + seq![':'] + l2, c2);
    lemma_split_at_last_unique(p1 + seq![':'] + l1, ':', p1, l1, p2, l2);
}

/// Split a location like "path/to/file.swift:12:5" into path, line and
/// column, splitting from the right to allow colons in the path.
pub fn parse_swift_location(location_str: &str) -> (r: Option<(&str, &str, &str)>)
    ensures
        match r {
            Some((path, line, column)) => spec_parse_swift_location(location_str@) == Some(
                (path@, line@, column@),
            ),
            None => spec_parse_swift_location(location_str@) is None,
        },
{
    let chars = to_chars(location_str);
    let n = chars.len();
    let Some(c2) = rfind_char(chars.as_slice(), ':', n) else {
        proof {
            if exists|p: Seq<char>, l: Seq<char>, c: Seq<char>|
                is_swift_location(location_str@, p, l, c) {
                let (p, l, c) = choose|p: Seq<char>, l: Seq<char>, c: Seq<char>|
                    is_swift_location(location_str@, p, l, c);
                assert(location_str@[p.len() as int] == ':');
            }
        }
        return None;
    };
    let Some(c1) = rfind_char(chars.as_slice(), ':', c2) else {
        proof {
            if exists|p: Seq<char>, l: Seq<char>, c: Seq<char>|
                is_swift_location(location_str@, p, l, c) {
                let (p, l, c) = choose|p: Seq<char>, l: Seq<char>, c: Seq<char>|
                    is_swift_location(location_str@, p, l, c);
                let k: int = (p.len() + 1 + l.len()) as int;
                assert(location_str@[k] == ':');
                assert(location_str@[p.len() as int] == ':');
                if k < c2 {
                    assert(c[c2 - k - 1] == location_str@[c2 as int]);
                } else if k > c2 {
                }
            }
        }
        return None;
    };
    let path = location_str.substring_char(0, c1);
    let line = location_str.substring_char(c1 + 1, c2);
    let column = location_str.substring_char(c2 + 1, n);
    proof {
        assert(location_str@ =~= path@ + seq![':'] + line@ + seq![':'] + column@);
        assert(!has_char(line@, ':')) by {
            if has_char(line@, ':') {
                let k = choose|k: int| 0 <= k < line@.len() && line@[k] == ':';
                assert(location_str@[c1 + 1 + k] == ':');
            }
        }
        assert(!has_char(column@, ':')) by {
            if has_char(column@, ':') {
                let k = choose|k: int| 0 <= k < column@.len() && column@[k] == ':';
                assert(location_str@[c2 + 1 + k] == ':');
            }
        }
        assert(is_swift_location(location_str@, path@, line@, column@));
        let (p, l, c) = choose|p: Seq<char>, l: Seq<char>, c: Seq<char>|
            is_swift_location(location_str@, p, l, c);
        lemma_swift_location_unique(location_str@, p, l, c, path@, line@, column@);
    }
    Some((path, line, column))
}

/// A diagnostic recognized in the output of a swift tool
pub struct SwiftDiagView {
    pub level: Kind,
    pub path: Seq<char>,
    pub line: Seq<char>,
    pub column: Seq<char>,
    pub message: Seq<char>,
    pub rule: Option<Seq<char>>,
}

/// The message and the rule of a message like "message (rule_name)"
pub open spec fn spec_extract_message_and_rule(m: Seq<char>) -> (Seq<char>, Option<Seq<char>>) {
    if m.len() > 0 && m.last() == ')' && has_char(m, '(') {
        let (a, b) = choose|a: Seq<char>, b: Seq<char>| split_at_last(m, '(', a, b);
        (trim(a), Some(b.drop_last()))
    } else {
        (m, None)
    }
}

/// The diagnostic found in the text of a swift line, `lint` telling whether the
/// rule is to be extracted from the message
pub open spec fn spec_swift_diagnostic(
    level: Kind,
    location: Seq<char>,
    message_part: Seq<char>,
    lint: bool,
) -> Option<SwiftDiagView> {
    match spec_parse_swift_location(location) {
        Some((path, line, column)) => {
            let (message, rule) = if lint {
                spec_extract_message_and_rule(message_part)
            } else {
                (message_part, None)
            };
            Some(SwiftDiagView { level, path, line, column, message, rule })
        },
        None => None,
    }
}

/// The level, location and message of a text like "location: (error|warning): message"
pub open spec fn spec_swift_split(s: Seq<char>) -> Option<(Kind, Seq<char>, Seq<char>)> {
    match first_occurrence(s, ": error: "@) {
        Some(p) => Some((Kind::Error, s.take(p), s.skip(p + ": error: "@.len()))),
        None => match first_occurrence(s, ": warning: "@) {
            Some(p) => Some((Kind::Warning, s.take(p), s.skip(p + ": warning: "@.len()))),
            None => None,
        },
    }
}

/// Split a text like "location: (error|warning): message"
pub fn swift_split(content: &str) -> (r: Option<(Kind, &str, &str)>)
    ensures
        match (r, spec_swift_split(content@)) {
            (Some((k, l, m)), Some((sk, sl, sm))) => k == sk && l@ == sl && m@ == sm,
            (None, None) => true,
            _ => false,
        },
{
    let chars = to_chars(content);
    let n = chars.len();
    let error_pat = to_chars(": error: ");
    let warning_pat = to_chars(": warning: ");
    proof {
        lemma_first_occurrence(content@, ": error: "@);
        lemma_first_occurrence(content@, ": warning: "@);
    }
    match find(chars.as_slice(), error_pat.as_slice()) {
        Some(pos) => {
            let location = content.substring_char(0, pos);
            let message = content.substring_char(pos + error_pat.len(), n);
            Some((Kind::Error, location, message))
        },
        None => match find(chars.as_slice(), warning_pat.as_slice()) {
            Some(pos) => {
                let location = content.substring_char(0, pos);
                let message = content.substring_char(pos + warning_pat.len(), n);
                Some((Kind::Warning, location, message))
            },
            None => None,
        },
    }
}

/// The diagnostic of a line like "path:line:column: (error|warning): message"
pub open spec fn spec_recognize_swift(content: Seq<TStringView>, lint: bool) -> Option<SwiftDiagView> {
    match unstyled_text(content) {
        None => None,
        Some(s) => if lint && (occurs_at(s, "Linting '"@, 0) || occurs_at(s, "Done linting!"@, 0)) {
            None
        } else {
            match spec_swift_split(s) {
                Some((level, location, message)) => spec_swift_diagnostic(
                    level,
                    location,
                    message,
                    lint,
                ),
                None => None,
            }
        },
    }
}

/// The title line of a diagnostic
pub open spec fn swift_title(d: SwiftDiagView) -> Seq<TStringView> {
    let message = seq![tstring_view(""@, d.message)];
    if d.level == Kind::Error {
        title_line_view(CSI_BOLD_RED@, "error"@, message)
    } else {
        title_line_view(CSI_BOLD_YELLOW@, "warning"@, message)
    }
}

/// The BURP location of a diagnostic
pub open spec fn swift_location(d: SwiftDiagView) -> Seq<char> {
    d.path + ":"@ + d.line + ":"@ + d.column
}

} // verus!
