//! Classification of the lines of the output of cargo-nextest
use vstd::prelude::*;
use crate::analysis::line_analysis::{
    analysis_of_type,
    analysis_with_key,
    LineAnalysis,
    LineAnalysisView,
};
use crate::analysis::line_analyzer::LineAnalyzer;
use crate::analysis::line_type::{Kind, LineType};
use crate::analysis::patterns::{digits_end, is_panicked_at, panicked_at_exec};
use crate::analysis::standard::standard_line_analyser::{analyze_line, std_line_analysis};
use crate::command_output::{CommandOutputLine, CommandOutputLineView};
use crate::text::{is_digit, is_number, leading_ws, leading_ws_count, occurs_at, occurs_at_exec, opt_view, str_eq, to_chars, trim, trim_bounds};
use crate::tline::{is_blank_tstring, tstrings_view, unstyled_text, TLine, TString, TStringView};

verus! {

/// The style of the titles of sections
pub const CSI_TITLE: &'static str = "\u{1b}[35;1m";

/// The style of passed tests
pub const CSI_PASS: &'static str = "\u{1b}[32;1m";

/// The style of errors and failed tests
pub const CSI_ERROR: &'static str = "\u{1b}[31;1m";

/// The key made of the styled strings from `i` on, `key` being what was
/// gathered before: unstyled strings are skipped, and the key ends at a
/// " ---" string or one of title style, which must be the last one
pub open spec fn key_v1(l: Seq<TStringView>, i: int, key: Seq<char>) -> Option<Seq<char>>
    decreases l.len() - i,
{
    if i >= l.len() {
        if key.len() == 0 {
            None
        } else {
            Some(key)
        }
    } else if l[i].csi.len() == 0 {
        key_v1(l, i + 1, key)
    } else if l[i].raw == " ---"@ || l[i].csi == CSI_TITLE@ {
        if i + 1 < l.len() || key.len() == 0 {
            None
        } else {
            Some(key)
        }
    } else {
        key_v1(l, i + 1, key + l[i].raw)
    }
}

/// The key after the crate name, which is at `start`
pub open spec fn key_after_crate_name_v1(l: Seq<TStringView>, start: int) -> Option<Seq<char>> {
    key_v1(l, start + 1, Seq::empty())
}

/// The key of a line like "--- STD(OUT|ERR): somekey ---"
pub open spec fn stdx_section_key_v1(l: Seq<TStringView>) -> Option<Seq<char>> {
    if l.len() > 0 && (occurs_at(l[0].raw, "--- STDOUT:"@, 0) || occurs_at(
        l[0].raw,
        "--- STDERR:"@,
        0,
    )) {
        key_after_crate_name_v1(l, 1)
    } else {
        None
    }
}

/// The position of the first string, from `i` on, which isn't a single space
pub open spec fn first_not_space(l: Seq<TStringView>, i: int) -> Option<int>
    decreases l.len() - i,
{
    if i < 0 || i >= l.len() {
        None
    } else if l[i].raw != " "@ {
        Some(i)
    } else {
        first_not_space(l, i + 1)
    }
}

/// The position of the first string, from `i` on, which is neither of title
/// style nor a single space
pub open spec fn first_key_part(l: Seq<TStringView>, i: int) -> Option<int>
    decreases l.len() - i,
{
    if i < 0 || i >= l.len() {
        None
    } else if l[i].csi != CSI_TITLE@ && l[i].raw != " "@ {
        Some(i)
    } else {
        first_key_part(l, i + 1)
    }
}

/// The key made of the styled strings from `i` on, up to an unstyled one or
/// one of title style
pub open spec fn key_v2(l: Seq<TStringView>, i: int, key: Seq<char>) -> Seq<char>
    decreases l.len() - i,
{
    if i < 0 || i >= l.len() || l[i].csi.len() == 0 || l[i].csi == CSI_TITLE@ {
        key
    } else {
        key_v2(l, i + 1, key + l[i].raw)
    }
}

/// The key after the crate name, looked for from `i` on
pub open spec fn key_after_crate_name_v2(l: Seq<TStringView>, i: int) -> Option<Seq<char>> {
    match first_key_part(l, i) {
        Some(k) => {
            let key = key_v2(l, k + 1, l[k].raw);
            if key.len() == 0 {
                None
            } else {
                Some(key)
            }
        },
        None => None,
    }
}

/// The key of a line like "──── STD(OUT|ERR): cratename some::key"
pub open spec fn stdx_section_key_v2(l: Seq<TStringView>) -> Option<Seq<char>> {
    if l.len() > 0 && l[0].csi == CSI_ERROR@ && l[0].raw == "────"@ {
        match first_not_space(l, 1) {
            Some(j) => if occurs_at(l[j].raw, "STDOUT:"@, 0) || occurs_at(l[j].raw, "STDERR:"@, 0) {
                key_after_crate_name_v2(l, j + 1)
            } else {
                None
            },
            None => None,
        }
    } else {
        None
    }
}

/// The position of the first string, from `i` on, which isn't blank
pub open spec fn first_not_blank(l: Seq<TStringView>, i: int) -> int
    decreases l.len() - i,
{
    if i < 0 || i >= l.len() || !is_blank_tstring(l[i]) {
        i
    } else {
        first_not_blank(l, i + 1)
    }
}

/// The last test key, when the line is like "──── std(out|err)" (which
/// newer versions of nextest print before the output of a failed test)
pub open spec fn stdx_section_key_v3(l: Seq<TStringView>, last_test_key: Option<Seq<char>>) -> Option<
    Seq<char>,
> {
    let a = first_not_blank(l, 0);
    if a + 3 == l.len() && l[a].csi == CSI_ERROR@ && (l[a].raw == "stdout"@ || l[a].raw
        == "stderr"@) && is_blank_tstring(l[a + 1]) && l[a + 2].csi
        == CSI_ERROR@ && l[a + 2].raw == "───"@ {
        last_test_key
    } else {
        None
    }
}

/// The key of a line opening the output of a failed test
pub open spec fn stdx_section_key(l: Seq<TStringView>, last_test_key: Option<Seq<char>>) -> Option<
    Seq<char>,
> {
    match stdx_section_key_v1(l) {
        Some(k) => Some(k),
        None => match stdx_section_key_v2(l) {
            Some(k) => Some(k),
            None => stdx_section_key_v3(l, last_test_key),
        },
    }
}

/// The key and outcome of a test result, like
/// "    PASS [   0.003s] bacon tests::failing_test3"
pub open spec fn nextest_test_result(l: Seq<TStringView>) -> Option<(Seq<char>, bool)> {
    if l.len() >= 2 && l[1].csi.len() == 0 && ((l[0].csi == CSI_PASS@ && trim(l[0].raw) == "PASS"@)
        || (l[0].csi == CSI_ERROR@ && trim(l[0].raw) == "FAIL"@)) {
        match key_after_crate_name_v1(l, 2) {
            Some(k) => Some((k, l[0].csi == CSI_PASS@ && trim(l[0].raw) == "PASS"@)),
            None => None,
        }
    } else {
        None
    }
}

/// The line tells that tests are canceled
pub open spec fn canceling_line(l: Seq<TStringView>) -> bool {
    l.len() > 0 && l[0].csi == CSI_ERROR@ && trim(l[0].raw) == "Canceling"@
}

/// The line is "error: test run failed"
pub open spec fn test_run_failed_line(l: Seq<TStringView>) -> bool {
    l.len() == 2 && l[0].csi == CSI_ERROR@ && trim(l[0].raw) == "error"@ && trim(l[1].raw)
        == ": test run failed"@
}

/// The line tells where a test panicked
pub open spec fn spec_is_location_v3(l: Seq<TStringView>) -> bool {
    let a = first_not_blank(l, 0);
    a < l.len() && l[a].csi == CSI_ERROR@ && is_panicked_at(
        l[a].raw.skip(leading_ws_count(l[a].raw) as int),
    )
}

/// The number of tests run has `d` digits
pub open spec fn running_count(t: Seq<char>, d: int) -> bool {
    d >= 1 && 8 + d <= t.len() && is_number(t.subrange(8, 8 + d)) && (t.skip(8 + d) == " test"@
        || t.skip(8 + d) == " tests"@)
}

/// The line is like "running 3 tests"
pub open spec fn is_running_tests(t: Seq<char>) -> bool {
    occurs_at(t, "running "@, 0) && exists|d: int| running_count(t, d)
}

/// The analysis of a line of nextest output, with the key of the last test
/// result met
pub open spec fn nextest_line_analysis(
    last_test_key: Option<Seq<char>>,
    line: CommandOutputLineView,
) -> LineAnalysisView {
    let l = line.content;
    match stdx_section_key(l, last_test_key) {
        Some(k) => analysis_with_key(LineType::Title(Kind::TestFail), k),
        None => match nextest_test_result(l) {
            Some((k, pass)) => analysis_with_key(LineType::TestResult(pass), k),
            None => if canceling_line(l) {
                analysis_of_type(LineType::SectionEnd)
            } else if test_run_failed_line(l) {
                analysis_of_type(LineType::Garbage)
            } else if spec_is_location_v3(l) {
                analysis_of_type(LineType::Location)
            } else {
                match unstyled_text(l) {
                    Some(t) => if is_running_tests(t) {
                        analysis_of_type(LineType::Garbage)
                    } else if t == "------------"@ || t == "────────────"@ {
                        analysis_of_type(LineType::SectionEnd)
                    } else {
                        std_line_analysis(line)
                    },
                    None => std_line_analysis(line),
                }
            },
        },
    }
}

/// The key of the last test result met, after the line
pub open spec fn nextest_after(
    last_test_key: Option<Seq<char>>,
    line: CommandOutputLineView,
) -> Option<Seq<char>> {
    let l = line.content;
    match stdx_section_key(l, last_test_key) {
        Some(_) => last_test_key,
        None => match nextest_test_result(l) {
            Some((k, _)) => Some(k),
            None => last_test_key,
        },
    }
}

/// Whether the trimmed string is the literal
fn trim_eq(s: &str, lit: &str) -> (r: bool)
    ensures
        r == (trim(s@) == lit@),
{
    let c = to_chars(s);
    let l = to_chars(lit);
    let (a, b) = trim_bounds(c.as_slice(), 0, c.len());
    assert(c@.subrange(0, c@.len() as int) =~= c@);
    assert(c@.subrange(a as int, b as int) == trim(s@));
    let mut i: usize = 0;
    if b - a != l.len() {
        assert(c@.subrange(a as int, b as int).len() != l@.len());
        return false;
    }
    while i < l.len()
        invariant
            a <= b <= c@.len(),
            c@.subrange(a as int, b as int) == trim(s@),
            l@ == lit@,
            b - a == l@.len(),
            i <= l@.len(),
            forall|j: int| 0 <= j < i ==> c@[a + j] == l@[j],
        decreases l@.len() - i,
    {
        if c[a + i] != l[i] {
            assert(c@.subrange(a as int, b as int)[i as int] != l@[i as int]);
            return false;
        }
        i += 1;
    }
    assert(c@.subrange(a as int, b as int) =~= l@);
    true
}

/// Whether the string is empty
fn is_empty_str(s: &str) -> (r: bool)
    ensures
        r == (s@.len() == 0),
{
    s.unicode_len() == 0
}

/// The key made of the styled strings from `i` on
fn key_v1_exec(strings: &[TString], start: usize) -> (r: Option<String>)
    ensures
        match r {
            Some(k) => key_v1(tstrings_view(strings@), start as int, Seq::empty()) == Some(k@),
            None => key_v1(tstrings_view(strings@), start as int, Seq::empty()) is None,
        },
{
    let ghost l = tstrings_view(strings@);
    let n = strings.len();
    let mut key = String::new();
    let mut i = start;
    loop
        invariant
            start <= i,
            n == strings@.len() == l.len(),
            l == tstrings_view(strings@),
            key_v1(l, start as int, Seq::empty()) == key_v1(l, i as int, key@),
        decreases n - i,
    {
        if i >= n {
            if is_empty_str(key.as_str()) {
                return None;
            }
            return Some(key);
        }
        let s = &strings[i];
        assert(l[i as int] == s@);
        if s.is_unstyled() {
            i += 1;
        } else if str_eq(s.raw.as_str(), " ---") || str_eq(s.csi.as_str(), CSI_TITLE) {
            if i + 1 < n || is_empty_str(key.as_str()) {
                return None;
            }
            return Some(key);
        } else {
            key.append(s.raw.as_str());
            i += 1;
        }
    }
}

/// Whether the string starts with the literal
fn str_starts_with(s: &str, p: &str) -> (r: bool)
    ensures
        r == occurs_at(s@, p@, 0),
{
    occurs_at_exec(to_chars(s).as_slice(), to_chars(p).as_slice(), 0)
}

/// The key of a line like "--- STD(OUT|ERR): somekey ---"
fn stdx_section_key_v1_exec(content: &TLine) -> (r: Option<String>)
    ensures
        match r {
            Some(k) => stdx_section_key_v1(content@) == Some(k@),
            None => stdx_section_key_v1(content@) is None,
        },
{
    if content.strings.len() == 0 {
        return None;
    }
    let first = content.strings[0].raw.as_str();
    assert(content@[0].raw == first@);
    if !(str_starts_with(first, "--- STDOUT:") || str_starts_with(first, "--- STDERR:")) {
        return None;
    }
    key_v1_exec(content.strings.as_slice(), 2)
}

/// The position of the first string, from `i` on, which isn't a single space
fn first_not_space_exec(strings: &[TString], i: usize) -> (r: Option<usize>)
    ensures
        match r {
            Some(j) => first_not_space(tstrings_view(strings@), i as int) == Some(j as int) && j
                < strings@.len(),
            None => first_not_space(tstrings_view(strings@), i as int) is None,
        },
{
    let ghost l = tstrings_view(strings@);
    let mut j = i;
    while j < strings.len()
        invariant
            i <= j,
            l == tstrings_view(strings@),
            first_not_space(l, i as int) == first_not_space(l, j as int),
        decreases strings@.len() - j,
    {
        assert(l[j as int] == strings@[j as int]@);
        if !str_eq(strings[j].raw.as_str(), " ") {
            return Some(j);
        }
        j += 1;
    }
    None
}

/// The position of the first string, from `i` on, which is neither of title
/// style nor a single space
fn first_key_part_exec(strings: &[TString], i: usize) -> (r: Option<usize>)
    ensures
        match r {
            Some(j) => first_key_part(tstrings_view(strings@), i as int) == Some(j as int) && j
                < strings@.len(),
            None => first_key_part(tstrings_view(strings@), i as int) is None,
        },
{
    let ghost l = tstrings_view(strings@);
    let mut j = i;
    while j < strings.len()
        invariant
            i <= j,
            l == tstrings_view(strings@),
            first_key_part(l, i as int) == first_key_part(l, j as int),
        decreases strings@.len() - j,
    {
        assert(l[j as int] == strings@[j as int]@);
        if !str_eq(strings[j].csi.as_str(), CSI_TITLE) && !str_eq(strings[j].raw.as_str(), " ") {
            return Some(j);
        }
        j += 1;
    }
    None
}

/// The key after the crate name, looked for from `i` on
fn key_after_crate_name_v2_exec(strings: &[TString], i: usize) -> (r: Option<String>)
    ensures
        match r {
            Some(k) => key_after_crate_name_v2(tstrings_view(strings@), i as int) == Some(k@),
            None => key_after_crate_name_v2(tstrings_view(strings@), i as int) is None,
        },
{
    let ghost l = tstrings_view(strings@);
    let k = match first_key_part_exec(strings, i) {
        Some(k) => k,
        None => {
            return None;
        },
    };
    let mut key = strings[k].raw.clone();
    assert(l[k as int].raw == key@);
    let mut j = k + 1;
    while j < strings.len() && !strings[j].is_unstyled() && !str_eq(
        strings[j].csi.as_str(),
        CSI_TITLE,
    )
        invariant
            k < j,
            l == tstrings_view(strings@),
            key_v2(l, k + 1, l[k as int].raw) == key_v2(l, j as int, key@),
        decreases strings@.len() - j,
    {
        assert(l[j as int] == strings@[j as int]@);
        key.append(strings[j].raw.as_str());
        j += 1;
    }
    if j < strings.len() {
        assert(l[j as int] == strings@[j as int]@);
    }
    if is_empty_str(key.as_str()) {
        None
    } else {
        Some(key)
    }
}

/// The key of a line like "──── STD(OUT|ERR): cratename some::key"
fn stdx_section_key_v2_exec(content: &TLine) -> (r: Option<String>)
    ensures
        match r {
            Some(k) => stdx_section_key_v2(content@) == Some(k@),
            None => stdx_section_key_v2(content@) is None,
        },
{
    let strings = content.strings.as_slice();
    if strings.len() == 0 {
        return None;
    }
    assert(content@[0] == strings@[0]@);
    if !str_eq(strings[0].csi.as_str(), CSI_ERROR) || !str_eq(strings[0].raw.as_str(), "────") {
        return None;
    }
    let j = match first_not_space_exec(strings, 1) {
        Some(j) => j,
        None => {
            return None;
        },
    };
    assert(content@[j as int] == strings@[j as int]@);
    let raw = strings[j].raw.as_str();
    if !(str_starts_with(raw, "STDOUT:") || str_starts_with(raw, "STDERR:")) {
        return None;
    }
    key_after_crate_name_v2_exec(strings, j + 1)
}

/// The position of the first string, from `i` on, which isn't blank
fn first_not_blank_exec(strings: &[TString], i: usize) -> (r: usize)
    ensures
        r == first_not_blank(tstrings_view(strings@), i as int),
        i <= r,
        r <= strings@.len() || r == i,
{
    let ghost l = tstrings_view(strings@);
    let mut j = i;
    while j < strings.len() && strings[j].is_blank()
        invariant
            i <= j,
            j <= strings@.len() || j == i,
            l == tstrings_view(strings@),
            first_not_blank(l, i as int) == first_not_blank(l, j as int),
        decreases strings@.len() - j,
    {
        assert(l[j as int] == strings@[j as int]@);
        j += 1;
    }
    if j < strings.len() {
        assert(l[j as int] == strings@[j as int]@);
    }
    j
}

/// The last test key, when the line is like "──── std(out|err)"
fn stdx_section_key_v3_exec(content: &TLine, last_test_key: &Option<String>) -> (r: Option<String>)
    ensures
        match r {
            Some(k) => stdx_section_key_v3(content@, opt_view(*last_test_key)) == Some(k@),
            None => stdx_section_key_v3(content@, opt_view(*last_test_key)) is None,
        },
{
    let strings = content.strings.as_slice();
    let n = strings.len();
    let a = first_not_blank_exec(strings, 0);
    if n < 3 || a != n - 3 {
        return None;
    }
    assert(content@[a as int] == strings@[a as int]@);
    assert(content@[a + 1] == strings@[a + 1]@);
    assert(content@[a + 2] == strings@[a + 2]@);
    if !str_eq(strings[a].csi.as_str(), CSI_ERROR) || !(str_eq(strings[a].raw.as_str(), "stdout")
        || str_eq(strings[a].raw.as_str(), "stderr")) || !strings[a + 1].is_blank() || !str_eq(
        strings[a + 2].csi.as_str(),
        CSI_ERROR,
    ) || !str_eq(strings[a + 2].raw.as_str(), "───") {
        return None;
    }
    match last_test_key {
        Some(k) => Some(k.clone()),
        None => None,
    }
}

/// The key of a line opening the output of a failed test
fn stdx_section_key_exec(content: &TLine, last_test_key: &Option<String>) -> (r: Option<String>)
    ensures
        match r {
            Some(k) => stdx_section_key(content@, opt_view(*last_test_key)) == Some(k@),
            None => stdx_section_key(content@, opt_view(*last_test_key)) is None,
        },
{
    match stdx_section_key_v1_exec(content) {
        Some(k) => Some(k),
        None => match stdx_section_key_v2_exec(content) {
            Some(k) => Some(k),
            None => stdx_section_key_v3_exec(content, last_test_key),
        },
    }
}

/// The key and outcome of a test result, like
/// "    PASS [   0.003s] bacon tests::failing_test3"
pub fn as_test_result(content: &TLine) -> (r: Option<(String, bool)>)
    ensures
        match r {
            Some((k, pass)) => nextest_test_result(content@) == Some((k@, pass)),
            None => nextest_test_result(content@) is None,
        },
{
    let strings = content.strings.as_slice();
    if strings.len() < 2 {
        return None;
    }
    assert(content@[0] == strings@[0]@);
    assert(content@[1] == strings@[1]@);
    let csi = strings[0].csi.as_str();
    let raw = strings[0].raw.as_str();
    let pass = if str_eq(csi, CSI_PASS) && trim_eq(raw, "PASS") {
        true
    } else if str_eq(csi, CSI_ERROR) && trim_eq(raw, "FAIL") {
        false
    } else {
        return None;
    };
    if !strings[1].is_unstyled() {
        return None;
    }
    match key_v1_exec(strings, 3) {
        Some(k) => Some((k, pass)),
        None => None,
    }
}

/// Whether the line tells that tests are canceled
pub fn is_canceling(content: &TLine) -> (r: bool)
    ensures
        r == canceling_line(content@),
{
    if content.strings.len() == 0 {
        return false;
    }
    let first = &content.strings[0];
    assert(content@[0] == first@);
    str_eq(first.csi.as_str(), CSI_ERROR) && trim_eq(first.raw.as_str(), "Canceling")
}

/// Whether the line is "error: test run failed"
pub fn is_error_test_run_failed(content: &TLine) -> (r: bool)
    ensures
        r == test_run_failed_line(content@),
{
    if content.strings.len() != 2 {
        return false;
    }
    let first = &content.strings[0];
    let second = &content.strings[1];
    assert(content@[0] == first@);
    assert(content@[1] == second@);
    str_eq(first.csi.as_str(), CSI_ERROR) && trim_eq(first.raw.as_str(), "error") && trim_eq(
        second.raw.as_str(),
        ": test run failed",
    )
}

/// Whether the line tells where a test panicked
pub fn is_location_v3(content: &TLine) -> (r: bool)
    ensures
        r == spec_is_location_v3(content@),
{
    let strings = content.strings.as_slice();
    let a = first_not_blank_exec(strings, 0);
    if a >= strings.len() {
        return false;
    }
    assert(content@[a as int] == strings@[a as int]@);
    if !str_eq(strings[a].csi.as_str(), CSI_ERROR) {
        return false;
    }
    let raw = to_chars(strings[a].raw.as_str());
    let m = leading_ws(raw.as_slice(), 0, raw.len());
    assert(raw@.subrange(0, raw@.len() as int) =~= raw@);
    panicked_at_exec(raw.as_slice(), m)
}

/// Whether the line is like "running 3 tests"
fn is_running_tests_exec(t: &str) -> (r: bool)
    ensures
        r == is_running_tests(t@),
{
    proof {
        reveal_strlit("running ");
        reveal_strlit(" test");
        reveal_strlit(" tests");
    }
    let s = to_chars(t);
    let s = s.as_slice();
    let n = s.len();
    if !occurs_at_exec(s, to_chars("running ").as_slice(), 0) {
        return false;
    }
    let e = digits_end(s, 8);
    let tail_one = e <= n && n - e == 5 && occurs_at_exec(s, to_chars(" test").as_slice(), e);
    let tail_many = e <= n && n - e == 6 && occurs_at_exec(s, to_chars(" tests").as_slice(), e);
    let r = e > 8 && (tail_one || tail_many);
    proof {
        let d = e - 8;
        assert(s@.subrange(8, e as int).len() == d);
        assert(s@.skip(e as int) =~= s@.subrange(e as int, n as int));
        if r {
            assert(running_count(s@, d as int));
        } else {
            assert forall|d2: int| !running_count(s@, d2) by {
                if running_count(s@, d2) {
                    reveal_strlit(" test");
                    reveal_strlit(" tests");
                    assert(" test"@[0] == ' ');
                    assert(" tests"@[0] == ' ');
                    assert(s@.skip(8 + d2).len() >= 5);
                    assert(s@.skip(8 + d2)[0] == s@[8 + d2]);
                    assert(s@[8 + d2] == ' ');
                    if d2 < d {
                        assert(is_digit(s@[8 + d2]));
                    } else if d2 > d {
                        assert(s@.subrange(8, 8 + d2)[d] == s@[e as int]);
                    }
                }
            }
        }
    }
    r
}

/// The analyzer of the lines of cargo-nextest outputs
#[derive(Debug)]
pub struct NextestLineAnalyzer {
    last_test_key: Option<String>,
}

impl View for NextestLineAnalyzer {
    /// The key of the last test result met
    type V = Option<Seq<char>>;

    closed spec fn view(&self) -> Option<Seq<char>> {
        opt_view(self.last_test_key)
    }
}

impl Default for NextestLineAnalyzer {
    fn default() -> (r: Self)
        ensures
            r@ is None,
    {
        NextestLineAnalyzer { last_test_key: None }
    }
}

impl NextestLineAnalyzer {
    /// The key of a line like "--- STD(OUT|ERR): somekey ---"
    pub fn stdx_section_key_v1(&self, content: &TLine) -> (r: Option<String>)
        ensures
            match r {
                Some(k) => stdx_section_key_v1(content@) == Some(k@),
                None => stdx_section_key_v1(content@) is None,
            },
    {
        stdx_section_key_v1_exec(content)
    }

    /// The key of a line opening the output of a failed test
    pub fn stdx_section_key(&self, content: &TLine) -> (r: Option<String>)
        ensures
            match r {
                Some(k) => stdx_section_key(content@, self@) == Some(k@),
                None => stdx_section_key(content@, self@) is None,
            },
    {
        stdx_section_key_exec(content, &self.last_test_key)
    }
}

impl LineAnalyzer for NextestLineAnalyzer {
    open spec fn analysis_of(state: Option<Seq<char>>, line: CommandOutputLineView) -> LineAnalysisView {
        nextest_line_analysis(state, line)
    }

    open spec fn after(state: Option<Seq<char>>, line: CommandOutputLineView) -> Option<Seq<char>> {
        nextest_after(state, line)
    }

    fn analyze_line(&mut self, cmd_line: &CommandOutputLine) -> (r: LineAnalysis) {
        let content = &cmd_line.content;
        if let Some(key) = self.stdx_section_key(content) {
            return LineAnalysis::title_key(Kind::TestFail, key);
        }
        if let Some((key, pass)) = as_test_result(content) {
            self.last_test_key = Some(key.clone());
            return LineAnalysis::test_result(key, pass);
        }
        if is_canceling(content) {
            return LineAnalysis::of_type(LineType::SectionEnd);
        }
        if is_error_test_run_failed(content) {
            return LineAnalysis::of_type(LineType::Garbage);
        }
        if is_location_v3(content) {
            return LineAnalysis::of_type(LineType::Location);
        }
        if let Some(t) = content.if_unstyled() {
            if is_running_tests_exec(t) {
                return LineAnalysis::of_type(LineType::Garbage);
            }
            if str_eq(t, "------------") || str_eq(t, "────────────") {
                return LineAnalysis::of_type(LineType::SectionEnd);
            }
        }
        analyze_line(cmd_line)
    }
}

} // verus!
