//! Classification of the lines of eslint outputs
use vstd::prelude::*;
use crate::analysis::line_analysis::{analysis_of_type, LineAnalysis, LineAnalysisView};
use crate::analysis::line_analyzer::LineAnalyzer;
use crate::analysis::line_type::{Kind, LineType};
use crate::analysis::patterns::{digits_end, is_word, is_word_char};
use crate::command_output::{CommandOutputLine, CommandOutputLineView};
use crate::text::{
    all_ws,
    is_digit,
    is_number,
    is_number_exec,
    is_ws,
    is_ws_char,
    occurs_at,
    occurs_at_exec,
    str_eq,
    to_chars,
    trim,
    trim_bounds,
};
use crate::tline::{is_blank_tstring, tstring_view, tstrings_view, TLine, TString, TStringView};

verus! {

/// The style of the path of the file whose problems follow
pub const CSI_LOCATION_PATH: &'static str = "\u{1b}[4m";

/// The style of the line and column of a problem
pub const CSI_LINE_COL: &'static str = "\u{1b}[2m";

/// The style of the "error" word
pub const CSI_ERROR: &'static str = "\u{1b}[31m";

/// The style of the "warning" word
pub const CSI_WARNING: &'static str = "\u{1b}[33m";

/// The style of the final count of problems
pub const CSI_SUM: &'static str = "\u{1b}[31m\u{1b}[1m";

/// `s` is a line number, a colon and a column, like "67:52"
pub open spec fn is_line_col(s: Seq<char>) -> bool {
    exists|i: int| line_col_split(s, i)
}

/// The colon of a line and column is at `i`
pub open spec fn line_col_split(s: Seq<char>, i: int) -> bool {
    0 <= i < s.len() && s[i] == ':' && is_number(s.take(i)) && is_number(s.skip(i + 1))
}

/// Whether `s` is a line number, a colon and a column
pub fn line_col_exec(s: &[char]) -> (r: bool)
    ensures
        r == is_line_col(s@),
{
    let n = s.len();
    let e = digits_end(s, 0);
    if e == 0 || e == n || s[e] != ':' {
        assert forall|i: int| !line_col_split(s@, i) by {
            if line_col_split(s@, i) {
                if i < e {
                    assert(is_digit(s@[i]));
                } else if i > e {
                    assert(s@.take(i)[e as int] == s@[e as int]);
                }
            }
        }
        return false;
    }
    let r = is_number_exec(s, e + 1, n);
    proof {
        assert(s@.take(e as int) =~= s@.subrange(0, e as int));
        assert(s@.skip(e + 1) =~= s@.subrange(e + 1, n as int));
        if r {
            assert(line_col_split(s@, e as int));
        } else {
            assert forall|i: int| !line_col_split(s@, i) by {
                if line_col_split(s@, i) {
                    if i < e {
                        assert(is_digit(s@[i]));
                    } else if i > e {
                        assert(s@.take(i)[e as int] == s@[e as int]);
                    }
                }
            }
        }
    }
    r
}

/// The line is like "  67:52  error  Unnecessary escape character" (with
/// `word` "error" and the style of errors) or the same for a warning
pub open spec fn is_line_col_title(l: Seq<TStringView>, csi: Seq<char>, word: Seq<char>) -> bool {
    &&& l.len() >= 4
    &&& is_blank_tstring(l[0])
    &&& l[1].csi == CSI_LINE_COL@
    &&& is_line_col(l[1].raw)
    &&& is_blank_tstring(l[2])
    &&& l[3].csi == csi
    &&& l[3].raw == word
}

/// Whether the line is a title like "  67:52  error  Some problem"
fn line_col_title_exec(content: &TLine, csi: &str, word: &str) -> (r: bool)
    ensures
        r == is_line_col_title(content@, csi@, word@),
{
    let strings = content.strings.as_slice();
    if strings.len() < 4 {
        return false;
    }
    assert(content@[0] == strings@[0]@);
    assert(content@[1] == strings@[1]@);
    assert(content@[2] == strings@[2]@);
    assert(content@[3] == strings@[3]@);
    strings[0].is_blank() && str_eq(strings[1].csi.as_str(), CSI_LINE_COL) && line_col_exec(
        to_chars(strings[1].raw.as_str()).as_slice(),
    ) && strings[2].is_blank() && str_eq(strings[3].csi.as_str(), csi) && str_eq(
        strings[3].raw.as_str(),
        word,
    )
}

/// The count of problems: "✖ ", a number, " problems (", a number,
/// " errors, ", a number, " warnings)", the numbers ending at `e1`, `e2`
/// and `e3`
pub open spec fn sum_split(s: Seq<char>, e1: int, e2: int, e3: int) -> bool {
    &&& occurs_at(s, "✖ "@, 0)
    &&& 2 <= e1
    &&& e1 + 11 <= e2
    &&& e2 + 9 <= e3
    &&& e3 <= s.len()
    &&& is_number(s.subrange(2, e1))
    &&& occurs_at(s, " problems ("@, e1)
    &&& is_number(s.subrange(e1 + 11, e2))
    &&& occurs_at(s, " errors, "@, e2)
    &&& is_number(s.subrange(e2 + 9, e3))
    &&& s.skip(e3) == " warnings)"@
}

/// `s` is like "✖ 3 problems (2 errors, 1 warnings)"
pub open spec fn is_sum_text(s: Seq<char>) -> bool {
    exists|e1: int, e2: int, e3: int| sum_split(s, e1, e2, e3)
}

proof fn lemma_sum_literals()
    ensures
        "✖ "@.len() == 2,
        " problems ("@.len() == 11,
        " problems ("@[0] == ' ',
        " errors, "@.len() == 9,
        " errors, "@[0] == ' ',
        " warnings)"@.len() == 10,
        " warnings)"@[0] == ' ',
{
    reveal_strlit("✖ ");
    reveal_strlit(" problems (");
    reveal_strlit(" errors, ");
    reveal_strlit(" warnings)");
}

/// The end of a number starting at `from` and followed by a space: any
/// such number ends at the end of the run of digits
proof fn lemma_number_end(s: Seq<char>, from: int, e: int, e2: int)
    requires
        0 <= from <= e <= s.len(),
        forall|k: int| from <= k < e ==> #[trigger] is_digit(s[k]),
        e == s.len() || !is_digit(s[e]),
        from <= e2 < s.len(),
        is_number(s.subrange(from, e2)),
        s[e2] == ' ',
    ensures
        e2 == e,
{
    if e2 < e {
        assert(is_digit(s[e2]));
    } else if e2 > e {
        assert(s.subrange(from, e2)[e - from] == s[e]);
    }
}

/// Whether `s` is like "✖ 3 problems (2 errors, 1 warnings)"
pub fn sum_text_exec(s: &[char]) -> (r: bool)
    ensures
        r == is_sum_text(s@),
{
    proof {
        lemma_sum_literals();
    }
    let n = s.len();
    let cross = to_chars("✖ ");
    let problems = to_chars(" problems (");
    let errors = to_chars(" errors, ");
    let warnings = to_chars(" warnings)");
    if !occurs_at_exec(s, cross.as_slice(), 0) {
        return false;
    }
    let e1 = digits_end(s, 2);
    if e1 == 2 || !occurs_at_exec(s, problems.as_slice(), e1) {
        assert forall|a: int, b: int, c: int| !sum_split(s@, a, b, c) by {
            if sum_split(s@, a, b, c) {
                assert(s@.subrange(a, a + 11)[0] == s@[a]);
                lemma_number_end(s@, 2, e1 as int, a);
            }
        }
        return false;
    }
    let e2 = digits_end(s, e1 + 11);
    if e2 == e1 + 11 || !occurs_at_exec(s, errors.as_slice(), e2) {
        assert forall|a: int, b: int, c: int| !sum_split(s@, a, b, c) by {
            if sum_split(s@, a, b, c) {
                assert(s@.subrange(a, a + 11)[0] == s@[a]);
                lemma_number_end(s@, 2, e1 as int, a);
                assert(s@.subrange(b, b + 9)[0] == s@[b]);
                lemma_number_end(s@, e1 + 11, e2 as int, b);
            }
        }
        return false;
    }
    let e3 = digits_end(s, e2 + 9);
    let r = e3 > e2 + 9 && n - e3 == 10 && occurs_at_exec(s, warnings.as_slice(), e3);
    proof {
        assert(s@.skip(e3 as int) =~= s@.subrange(e3 as int, n as int));
        assert(s@.subrange(2, e1 as int).len() > 0);
        if r {
            assert(sum_split(s@, e1 as int, e2 as int, e3 as int));
        } else {
            assert forall|a: int, b: int, c: int| !sum_split(s@, a, b, c) by {
                if sum_split(s@, a, b, c) {
                    assert(s@.subrange(a, a + 11)[0] == s@[a]);
                    lemma_number_end(s@, 2, e1 as int, a);
                    assert(s@.subrange(b, b + 9)[0] == s@[b]);
                    lemma_number_end(s@, e1 + 11, e2 as int, b);
                    assert(s@.skip(c)[0] == s@[c]);
                    lemma_number_end(s@, e2 + 9, e3 as int, c);
                }
            }
        }
    }
    r
}

/// The line is the final count of problems
pub open spec fn is_sum_line(l: Seq<TStringView>) -> bool {
    &&& l.len() >= 1
    &&& l[0].csi == CSI_SUM@
    &&& is_sum_text(l[0].raw)
    &&& forall|i: int| 1 <= i < l.len() ==> #[trigger] is_blank_tstring(l[i])
}

/// Whether the line is the final count of problems
fn sum_line_exec(content: &TLine) -> (r: bool)
    ensures
        r == is_sum_line(content@),
{
    let strings = content.strings.as_slice();
    if strings.len() == 0 {
        return false;
    }
    assert(content@[0] == strings@[0]@);
    if !(str_eq(strings[0].csi.as_str(), CSI_SUM) && sum_text_exec(
        to_chars(strings[0].raw.as_str()).as_slice(),
    )) {
        return false;
    }
    let mut i: usize = 1;
    while i < strings.len()
        invariant
            1 <= i <= strings@.len(),
            content@ == tstrings_view(strings@),
            forall|j: int| 1 <= j < i ==> #[trigger] is_blank_tstring(content@[j]),
        decreases strings@.len() - i,
    {
        assert(content@[i as int] == strings@[i as int]@);
        if !strings[i].is_blank() {
            return false;
        }
        i += 1;
    }
    true
}

/// There's a dot at `p` in the path `t`, followed by word characters and a
/// final 's' (like in "/home/dys/src/main.ts")
pub open spec fn dot_ext(t: Seq<char>, p: int) -> bool {
    &&& 2 <= p
    &&& p + 2 <= t.len() - 1
    &&& t[p] == '.'
    &&& forall|k: int| p < k < t.len() - 1 ==> #[trigger] is_word(t[k])
}

/// `s` is, between white space, an absolute path ending with an extension
/// ending in 's'
pub open spec fn is_location_path_text(s: Seq<char>) -> bool {
    let t = trim(s);
    &&& t.len() > 0
    &&& forall|i: int| 0 <= i < t.len() ==> !is_ws(#[trigger] t[i])
    &&& t[0] == '/'
    &&& t.last() == 's'
    &&& exists|p: int| dot_ext(t, p)
}

/// Whether `s` is, between white space, an absolute path ending with an
/// extension ending in 's'
fn location_path_text_exec(s: &[char]) -> (r: bool)
    ensures
        r == is_location_path_text(s@),
{
    let n = s.len();
    let (a, b) = trim_bounds(s, 0, n);
    assert(s@.subrange(0, n as int) =~= s@);
    let ghost t = s@.subrange(a as int, b as int);
    if a == b {
        return false;
    }
    let mut i = a;
    while i < b
        invariant
            a <= i <= b <= s@.len(),
            t == s@.subrange(a as int, b as int),
            t == trim(s@),
            forall|k: int| a <= k < i ==> !is_ws(#[trigger] s@[k]),
        decreases b - i,
    {
        if is_ws_char(s[i]) {
            assert(t[i - a] == s@[i as int]);
            return false;
        }
        i += 1;
    }
    assert forall|k: int| 0 <= k < t.len() implies !is_ws(#[trigger] t[k]) by {
        assert(t[k] == s@[a + k]);
    }
    if s[a] != '/' || s[b - 1] != 's' {
        assert(t[0] == s@[a as int]);
        assert(t.last() == s@[b - 1]);
        return false;
    }
    assert(t[0] == s@[a as int]);
    assert(t.last() == s@[b - 1]);
    // going down from the end, while the extension is made of word characters
    let mut p = b - 1;
    loop
        invariant
            a <= p < b <= s@.len(),
            t == s@.subrange(a as int, b as int),
            t == trim(s@),
            t.len() > 0,
            forall|i: int| 0 <= i < t.len() ==> !is_ws(#[trigger] t[i]),
            t[0] == '/',
            t.last() == 's',
            forall|k: int| p <= k < b - 1 ==> #[trigger] is_word(s@[k]),
            forall|q: int| p - a <= q ==> !#[trigger] dot_ext(t, q),
        decreases p,
    {
        if p == a {
            assert forall|q: int| !#[trigger] dot_ext(t, q) by {}
            return false;
        }
        p -= 1;
        if s[p] == '.' && p - a >= 2 && p + 2 <= b - 1 {
            proof {
                assert forall|k: int| p - a < k < t.len() - 1 implies #[trigger] is_word(t[k]) by {
                    assert(t[k] == s@[a + k]);
                    assert(is_word(s@[a + k]));
                }
                assert(dot_ext(t, p - a));
            }
            return true;
        }
        if !is_word_char(s[p]) {
            assert forall|q: int| !#[trigger] dot_ext(t, q) by {
                if dot_ext(t, q) && q < p - a {
                    assert(p - a < t.len() - 1);
                    assert(is_word(t[p - a]));
                    assert(t[p - a] == s@[p as int]);
                } else if dot_ext(t, q) && q == p - a {
                    assert(t[q] == s@[p as int]);
                }
            }
            return false;
        }
        assert forall|q: int| p - a < q + 1 implies !#[trigger] dot_ext(t, q) by {
            if q == p - a && dot_ext(t, q) {
                assert(t[q] == s@[p as int]);
            }
        }
    }
}

/// The path given by a line telling the file of the problems which follow
pub open spec fn location_path(l: Seq<TStringView>) -> Option<Seq<char>> {
    if l.len() >= 1 && l[0].csi == CSI_LOCATION_PATH@ && is_location_path_text(l[0].raw) {
        Some(l[0].raw)
    } else {
        None
    }
}

/// The path given by a line telling the file of the problems which follow
pub fn get_location_path(content: &TLine) -> (r: Option<String>)
    ensures
        match r {
            Some(p) => location_path(content@) == Some(p@),
            None => location_path(content@) is None,
        },
{
    let strings = content.strings.as_slice();
    if strings.len() == 0 {
        return None;
    }
    assert(content@[0] == strings@[0]@);
    if str_eq(strings[0].csi.as_str(), CSI_LOCATION_PATH) && location_path_text_exec(
        to_chars(strings[0].raw.as_str()).as_slice(),
    ) {
        Some(strings[0].raw.clone())
    } else {
        None
    }
}

/// The analysis of a line of eslint output
pub open spec fn eslint_line_analysis(line: CommandOutputLineView) -> LineAnalysisView {
    let l = line.content;
    if is_line_col_title(l, CSI_ERROR@, "error"@) {
        analysis_of_type(LineType::Title(Kind::Error))
    } else if is_line_col_title(l, CSI_WARNING@, "warning"@) {
        analysis_of_type(LineType::Title(Kind::Warning))
    } else if location_path(l) is Some {
        analysis_of_type(LineType::Location)
    } else if is_sum_line(l) {
        analysis_of_type(LineType::Title(Kind::Sum))
    } else {
        analysis_of_type(LineType::Normal)
    }
}

/// The analyzer of the lines of eslint outputs
#[derive(Debug)]
pub struct EslintLineAnalyzer {}

impl View for EslintLineAnalyzer {
    type V = ();

    open spec fn view(&self) -> () {
        ()
    }
}

impl LineAnalyzer for EslintLineAnalyzer {
    open spec fn analysis_of(state: (), line: CommandOutputLineView) -> LineAnalysisView {
        eslint_line_analysis(line)
    }

    open spec fn after(state: (), line: CommandOutputLineView) -> () {
        ()
    }

    fn analyze_line(&mut self, cmd_line: &CommandOutputLine) -> (r: LineAnalysis) {
        let content = &cmd_line.content;
        if line_col_title_exec(content, CSI_ERROR, "error") {
            LineAnalysis::of_type(LineType::Title(Kind::Error))
        } else if line_col_title_exec(content, CSI_WARNING, "warning") {
            LineAnalysis::of_type(LineType::Title(Kind::Warning))
        } else if get_location_path(content).is_some() {
            LineAnalysis::of_type(LineType::Location)
        } else if sum_line_exec(content) {
            LineAnalysis::of_type(LineType::Title(Kind::Sum))
        } else {
            LineAnalysis::normal()
        }
    }
}

/// `s` where each run of white space is replaced with a single space
pub open spec fn collapse_ws(s: Seq<char>) -> Seq<char>
    decreases s.len(),
{
    if s.len() == 0 {
        s
    } else if is_ws(s.last()) {
        if s.len() >= 2 && is_ws(s[s.len() - 2]) {
            collapse_ws(s.drop_last())
        } else {
            collapse_ws(s.drop_last()).push(' ')
        }
    } else {
        collapse_ws(s.drop_last()).push(s.last())
    }
}

/// `s` where each run of white space is replaced with a single space
pub fn collapse_ws_exec(s: &str) -> (r: String)
    ensures
        r@ == collapse_ws(s@),
{
    let c = to_chars(s);
    let mut r = String::new();
    let mut i: usize = 0;
    while i < c.len()
        invariant
            i <= c@.len(),
            c@ == s@,
            r@ == collapse_ws(c@.take(i as int)),
        decreases c@.len() - i,
    {
        let ws = is_ws_char(c[i]);
        let prev_ws = i > 0 && is_ws_char(c[i - 1]);
        proof {
            assert(c@.take(i + 1).drop_last() =~= c@.take(i as int));
            if i > 0 {
                assert(c@.take(i + 1)[i - 1] == c@[i - 1]);
            }
        }
        if ws {
            if !prev_ws {
                crate::text::push_char(&mut r, ' ');
            }
        } else {
            crate::text::push_char(&mut r, c[i]);
        }
        i += 1;
    }
    assert(c@.take(c@.len() as int) =~= c@);
    r
}

/// The state of the cleaning of a line: the strings kept so far, and whether
/// the last string was blank
pub open spec fn cleaned_step(st: (Seq<TStringView>, bool), ts: TStringView) -> (
    Seq<TStringView>,
    bool,
) {
    if ts.csi == CSI_LINE_COL@ && is_line_col(ts.raw) {
        st
    } else {
        let blank = all_ws(ts.raw);
        (
            if blank && st.1 {
                st.0
            } else {
                st.0.push(tstring_view(ts.csi, collapse_ws(ts.raw)))
            },
            blank,
        )
    }
}

/// The line without the line and column strings, with white space runs
/// collapsed, and without blank strings following blank strings (or
/// starting the line)
pub open spec fn cleaned_line(l: Seq<TStringView>) -> Seq<TStringView> {
    l.fold_left((Seq::<TStringView>::empty(), true), |st: (Seq<TStringView>, bool), ts: TStringView| cleaned_step(st, ts)).0
}

/// The line cleaned for display in the report
pub fn cleaned_tline(content: &TLine) -> (r: TLine)
    ensures
        r@ == cleaned_line(content@),
{
    let strings = content.strings.as_slice();
    let ghost l = content@;
    let mut out: Vec<TString> = Vec::new();
    let mut last_is_blank = true;
    let mut i: usize = 0;
    while i < strings.len()
        invariant
            i <= strings@.len(),
            l == tstrings_view(strings@),
            (tstrings_view(out@), last_is_blank) == l.take(i as int).fold_left(
                (Seq::<TStringView>::empty(), true),
                |st: (Seq<TStringView>, bool), ts: TStringView| cleaned_step(st, ts),
            ),
        decreases strings@.len() - i,
    {
        let ts = &strings[i];
        proof {
            assert(l.take(i + 1).drop_last() =~= l.take(i as int));
            assert(l[i as int] == ts@);
        }
        if str_eq(ts.csi.as_str(), CSI_LINE_COL) && line_col_exec(
            to_chars(ts.raw.as_str()).as_slice(),
        ) {
            i += 1;
        } else {
            let raw = collapse_ws_exec(ts.raw.as_str());
            let is_blank = ts.is_blank();
            if !(is_blank && last_is_blank) {
                let ghost before = out@;
                out.push(TString { csi: ts.csi.clone(), raw });
                assert(tstrings_view(out@) =~= tstrings_view(before).push(
                    tstring_view(ts.csi@, collapse_ws(ts.raw@)),
                ));
            }
            last_is_blank = is_blank;
            i += 1;
        }
    }
    assert(l.take(strings@.len() as int) =~= l);
    TLine { strings: out }
}

} // verus!
