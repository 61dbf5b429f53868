//! An analyzer for Python's Pytest test framework.
use vstd::prelude::*;
use crate::analysis::analyzer::{AnalysisError, Analyzer};
use crate::analysis::item_accumulator::{
    acc_close,
    acc_empty,
    acc_lines,
    acc_push,
    acc_start,
    AccView,
    ItemAccumulator,
};
use crate::analysis::line_type::{Kind, LineType};
use crate::burp::{
    error_line,
    error_line_view,
    failure_line,
    failure_line_view,
    location_line,
    location_line_view,
};
use crate::command_output::{output_lines_view, CommandOutput, CommandOutputLine, CommandOutputLineView};
use crate::report::{lines_view, stats_of, LineView, Report};
use crate::text::{
    is_digit,
    is_digit_char,
    is_ws,
    is_ws_char,
    no_lf,
    no_lf_exec,
    occurs_at,
    occurs_at_exec,
    str_eq,
    string_of,
    to_chars,
};
use crate::tline::unstyled_text;

verus! {

/// `s` is a title: `a` (from 2 to 39) times `c`, a space, the title, a
/// space (at `b`) and again from 2 to 39 times `c` up to the end
pub open spec fn title_split(s: Seq<char>, c: char, a: int, b: int) -> bool {
    &&& 2 <= a <= 39
    &&& forall|k: int| 0 <= k < a ==> #[trigger] s[k] == c
    &&& s[a] == ' '
    &&& a + 1 < b
    &&& no_lf(s.subrange(a + 1, b))
    &&& s[b] == ' '
    &&& 2 <= s.len() - b - 1 <= 39
    &&& forall|k: int| b < k < s.len() ==> #[trigger] s[k] == c
}

/// The text of a title made with the character `c`, like
/// "===== FAILURES =====" with '='
pub open spec fn title_of(s: Seq<char>, c: char) -> Option<Seq<char>> {
    if exists|a: int, b: int| title_split(s, c, a, b) {
        let (a, b) = choose|a: int, b: int| title_split(s, c, a, b);
        Some(s.subrange(a + 1, b))
    } else {
        None
    }
}

proof fn lemma_title_unique(s: Seq<char>, c: char, a: int, b: int, a2: int, b2: int)
    requires
        title_split(s, c, a, b),
        title_split(s, c, a2, b2),
        c != ' ',
    ensures
        a == a2,
        b == b2,
{
    if a2 < a {
        assert(s[a2] == c);
    } else if a < a2 {
        assert(s[a] == c);
    }
    if b2 < b {
        assert(s[b] == c);
    } else if b < b2 {
        assert(s[b2] == c);
    }
}

/// The text of a title made with the character `c`
fn title_of_exec(s: &[char], c: char) -> (r: Option<String>)
    requires
        c != ' ',
    ensures
        match r {
            Some(t) => title_of(s@, c) == Some(t@),
            None => title_of(s@, c) is None,
        },
{
    let n = s.len();
    let mut a: usize = 0;
    while a < n && s[a] == c
        invariant
            a <= n == s@.len(),
            forall|k: int| 0 <= k < a ==> #[trigger] s@[k] == c,
        decreases n - a,
    {
        a += 1;
    }
    let mut b = n;
    while b > 0 && s[b - 1] == c
        invariant
            b <= n == s@.len(),
            forall|k: int| b <= k < n ==> #[trigger] s@[k] == c,
        decreases b,
    {
        b -= 1;
    }
    // the leading run ends at `a`, the trailing one starts at `b`
    let ok = 2 <= a && a <= 39 && a < n && s[a] == ' ' && b >= 1 && b - 1 > a + 1 && s[b - 1] == ' '
        && n - b >= 2 && n - b <= 39 && no_lf_exec(s, a + 2, b - 1) && no_lf_exec(s, a + 1, a + 2);
    proof {
        if ok {
            assert forall|i: int| 0 <= i < s@.subrange(a + 1, b - 1).len() implies #[trigger]
                crate::text::is_any(s@.subrange(a + 1, b - 1)[i]) by {
                if i == 0 {
                    assert(s@.subrange(a + 1, a + 2)[0] == s@[a + 1]);
                } else {
                    assert(s@.subrange(a + 2, b - 1)[i - 1] == s@[a + 1 + i]);
                }
            }
            assert(title_split(s@, c, a as int, b - 1));
            let (a2, b2) = choose|a2: int, b2: int| title_split(s@, c, a2, b2);
            lemma_title_unique(s@, c, a as int, b - 1, a2, b2);
        } else {
            assert forall|a2: int, b2: int| !title_split(s@, c, a2, b2) by {
                if title_split(s@, c, a2, b2) {
                    if a2 < a {
                        assert(s@[a2] == c);
                    } else if a < a2 {
                        assert(s@[a as int] == c);
                    }
                    if b2 + 1 < b {
                        assert(s@[b - 1] == c);
                    } else if b < b2 + 1 {
                        assert(s@[b2] == c);
                    }
                    assert(s@.subrange(a + 1, b2)[0] == s@[a + 1]);
                    assert forall|i: int| 0 <= i < s@.subrange(a + 2, b2).len() implies #[trigger]
                        crate::text::is_any(s@.subrange(a + 2, b2)[i]) by {
                        assert(s@.subrange(a + 2, b2)[i] == s@.subrange(a + 1, b2)[i + 1]);
                    }
                    assert forall|i: int| 0 <= i < s@.subrange(a + 1, a + 2).len() implies #[trigger]
                        crate::text::is_any(s@.subrange(a + 1, a + 2)[i]) by {
                        assert(s@.subrange(a + 1, a + 2)[i] == s@.subrange(a + 1, b2)[i]);
                    }
                }
            }
        }
    }
    if ok {
        Some(string_of(s, a + 1, b - 1))
    } else {
        None
    }
}

/// `s` is like "file tests/test_x.py, line 12": the path ends at `k`
pub open spec fn file_line_split(s: Seq<char>, k: int) -> bool {
    &&& occurs_at(s, "file "@, 0)
    &&& 5 < k
    &&& forall|i: int| 5 <= i < k ==> !#[trigger] is_ws(s[i])
    &&& occurs_at(s, ".py, line "@, k)
    &&& 1 <= s.len() - k - 10 <= 8
    &&& forall|i: int| k + 10 <= i < s.len() ==> #[trigger] is_digit(s[i])
}

/// `s` starts like "tests/test_x.py:12": the path ends at `k`
pub open spec fn path_line_split(s: Seq<char>, k: int) -> bool {
    &&& 0 < k
    &&& forall|i: int| 0 <= i < k ==> !#[trigger] is_ws(s[i])
    &&& occurs_at(s, ".py:"@, k)
    &&& k + 4 < s.len()
    &&& is_digit(s[k + 4])
}

/// The end of the line number starting at `from`: up to 8 digits
pub open spec fn line_number_end(s: Seq<char>, from: int, count: int) -> int
    decreases 8 - count,
{
    if count >= 8 || from + count >= s.len() || !is_digit(s[from + count]) || count < 0 {
        from + count
    } else {
        line_number_end(s, from, count + 1)
    }
}

/// What a line of pytest output is
pub enum PytLineFormat {
    /// a big title, with '='
    H1(Seq<char>),
    /// a smaller title, with '_'
    H2(Seq<char>),
    /// a location: a path and a line number
    Location(Seq<char>, Seq<char>),
    Other,
}

/// What a line of pytest output is
pub open spec fn pytest_format(s: Seq<char>) -> PytLineFormat {
    match title_of(s, '=') {
        Some(t) => PytLineFormat::H1(t),
        None => match title_of(s, '_') {
            Some(t) => PytLineFormat::H2(t),
            None => if exists|k: int| file_line_split(s, k) {
                let k = choose|k: int| file_line_split(s, k);
                PytLineFormat::Location(s.subrange(5, k + 3), s.skip(k + 10))
            } else if exists|k: int| path_line_split(s, k) {
                let k = choose|k: int|
                    path_line_split(s, k) && forall|k2: int| k < k2 ==> !#[trigger] path_line_split(
                        s,
                        k2,
                    );
                PytLineFormat::Location(
                    s.take(k + 3),
                    s.subrange(k + 4, line_number_end(s, k + 4, 0)),
                )
            } else {
                PytLineFormat::Other
            },
        },
    }
}

proof fn lemma_pyt_literals()
    ensures
        "file "@.len() == 5,
        ".py, line "@.len() == 10,
        ".py, line "@[4] == ' ',
        forall|i: int| 0 <= i < 4 ==> !is_ws(#[trigger] ".py, line "@[i]),
        ".py:"@.len() == 4,
{
    reveal_strlit("file ");
    reveal_strlit(".py, line ");
    reveal_strlit(".py:");
}

/// The path and line of a line like "file tests/test_x.py, line 12"
fn file_line_exec(s: &[char]) -> (r: Option<(String, String)>)
    ensures
        match r {
            Some((path, line)) => exists|k: int|
                file_line_split(s@, k) && path@ == s@.subrange(5, k + 3) && line@ == s@.skip(k + 10),
            None => forall|k: int| !file_line_split(s@, k),
        },
        r is Some ==> (exists|k: int| file_line_split(s@, k)),
{
    proof {
        lemma_pyt_literals();
    }
    let n = s.len();
    if !occurs_at_exec(s, to_chars("file ").as_slice(), 0) {
        return None;
    }
    // the first white space after "file " is the one of ", line "
    let mut w: usize = 5;
    while w < n && !is_ws_char(s[w])
        invariant
            5 <= w <= n == s@.len(),
            forall|i: int| 5 <= i < w ==> !#[trigger] is_ws(s@[i]),
        decreases n - w,
    {
        w += 1;
    }
    let ok = w >= 10 && w - 4 > 5 && occurs_at_exec(s, to_chars(".py, line ").as_slice(), w - 4);
    if !ok {
        assert forall|k: int| !file_line_split(s@, k) by {
            if file_line_split(s@, k) {
                assert(s@.subrange(k, k + 10)[4] == s@[k + 4]);
                if k + 4 < w {
                    assert(!is_ws(s@[k + 4]));
                    assert(is_ws(' '));
                } else if k + 4 > w {
                    if w < k {
                        assert(!is_ws(s@[w as int]));
                    } else {
                        assert(s@.subrange(k, k + 10)[w - k] == s@[w as int]);
                        assert(!is_ws(".py, line "@[w - k]));
                    }
                }
            }
        }
        return None;
    }
    let k = w - 4;
    let m = n - k - 10;
    let mut ok2 = m >= 1 && m <= 8;
    let mut i = k + 10;
    while ok2 && i < n
        invariant
            k + 10 <= i <= n == s@.len(),
            m == n - k - 10,
            ok2 ==> 1 <= m <= 8,
            !ok2 ==> !(1 <= m <= 8) || exists|j: int| k + 10 <= j < n && !is_digit(#[trigger] s@[j]),
            ok2 ==> forall|j: int| k + 10 <= j < i ==> #[trigger] is_digit(s@[j]),
        decreases n - i,
    {
        if !is_digit_char(s[i]) {
            ok2 = false;
            assert(!is_digit(s@[i as int]));
        }
        i += 1;
    }
    proof {
        if !ok2 {
            assert forall|k2: int| !file_line_split(s@, k2) by {
                if file_line_split(s@, k2) {
                    assert(s@.subrange(k2, k2 + 10)[4] == s@[k2 + 4]);
                    if k2 + 4 < w {
                        assert(!is_ws(s@[k2 + 4]));
                        assert(is_ws(' '));
                    } else if k2 + 4 > w {
                        if w < k2 {
                            assert(!is_ws(s@[w as int]));
                        } else {
                            assert(s@.subrange(k2, k2 + 10)[w - k2] == s@[w as int]);
                            assert(!is_ws(".py, line "@[w - k2]));
                        }
                    }
                    assert(k2 == k);
                }
            }
        } else {
            assert(i == n);
            assert(file_line_split(s@, k as int));
            assert(s@.skip(k + 10) =~= s@.subrange(k + 10, n as int));
        }
    }
    if !ok2 {
        return None;
    }
    Some((string_of(s, 5, k + 3), string_of(s, k + 10, n)))
}

/// The end of the line number starting at `from`
fn line_number_end_exec(s: &[char], from: usize) -> (r: usize)
    requires
        from <= s@.len(),
    ensures
        r == line_number_end(s@, from as int, 0),
        from <= r <= s@.len(),
{
    let n = s.len();
    let mut c: usize = 0;
    while c < 8 && from + c < n && is_digit_char(s[from + c])
        invariant
            c <= 8,
            n == s@.len(),
            from + c <= s@.len(),
            line_number_end(s@, from as int, 0) == line_number_end(s@, from as int, c as int),
        decreases 8 - c,
    {
        c += 1;
    }
    from + c
}

/// The path and line of a line starting like "tests/test_x.py:12"
fn path_line_exec(s: &[char]) -> (r: Option<(String, String)>)
    ensures
        match r {
            Some((path, line)) => exists|k: int|
                path_line_split(s@, k) && (forall|k2: int| k < k2 ==> !#[trigger] path_line_split(s@, k2))
                    && path@ == s@.take(k + 3) && line@ == s@.subrange(k + 4, line_number_end(s@, k + 4, 0)),
            None => forall|k: int| !path_line_split(s@, k),
        },
{
    proof {
        lemma_pyt_literals();
        reveal_strlit(".py:");
    }
    assert(forall|i: int| 0 <= i < 4 ==> !is_ws(#[trigger] ".py:"@[i]));
    let n = s.len();
    let mut w: usize = 0;
    while w < n && !is_ws_char(s[w])
        invariant
            w <= n == s@.len(),
            forall|i: int| 0 <= i < w ==> !#[trigger] is_ws(s@[i]),
        decreases n - w,
    {
        w += 1;
    }
    let py = to_chars(".py:");
    if w < 6 {
        assert forall|k2: int| !path_line_split(s@, k2) by {
            if path_line_split(s@, k2) {
                crate::analysis::patterns::lemma_digit_not_ws(s@[k2 + 4]);
                if k2 + 4 >= w {
                    if w < k2 {
                        assert(!is_ws(s@[w as int]));
                    } else if w < k2 + 4 {
                        assert(s@.subrange(k2, k2 + 4)[w - k2] == s@[w as int]);
                    }
                }
            }
        }
        return None;
    }
    assert forall|k2: int| w - 4 <= k2 implies !#[trigger] path_line_split(s@, k2) by {
        if path_line_split(s@, k2) {
            crate::analysis::patterns::lemma_digit_not_ws(s@[k2 + 4]);
            if w < k2 {
                assert(!is_ws(s@[w as int]));
            } else if w < k2 + 4 {
                assert(s@.subrange(k2, k2 + 4)[w - k2] == s@[w as int]);
            }
        }
    }
    let mut k = w - 4;
    loop
        invariant
            1 <= k <= w - 4,
            w <= n == s@.len(),
            py@ == ".py:"@,
            forall|i: int| 0 <= i < w ==> !#[trigger] is_ws(s@[i]),
            w == n || is_ws(s@[w as int]),
            forall|k2: int| k <= k2 ==> !#[trigger] path_line_split(s@, k2),
        decreases k,
    {
        if k == 1 {
            assert forall|k2: int| !#[trigger] path_line_split(s@, k2) by {}
            return None;
        }
        k -= 1;
        if occurs_at_exec(s, py.as_slice(), k) && k + 4 < n && is_digit_char(s[k + 4]) {
            let e = line_number_end_exec(s, k + 4);
            proof {
                assert(path_line_split(s@, k as int));
                assert(s@.take(k + 3) =~= s@.subrange(0, k + 3));
            }
            return Some((string_of(s, 0, k + 3), string_of(s, k + 4, e)));
        }
    }
}

proof fn lemma_file_line_unique(s: Seq<char>, k1: int, k2: int)
    requires
        file_line_split(s, k1),
        file_line_split(s, k2),
    ensures
        k1 == k2,
{
    reveal_strlit(".py, line ");
    lemma_pyt_literals();
    if k1 < k2 {
        if k1 + 4 < k2 {
            assert(s.subrange(k1, k1 + 10)[4] == s[k1 + 4]);
            assert(!is_ws(s[k1 + 4]));
        } else {
            assert(s.subrange(k2, k2 + 10)[0] == s[k2]);
            assert(s.subrange(k1, k1 + 10)[k2 - k1] == s[k2]);
        }
    } else if k2 < k1 {
        if k2 + 4 < k1 {
            assert(s.subrange(k2, k2 + 10)[4] == s[k2 + 4]);
            assert(!is_ws(s[k2 + 4]));
        } else {
            assert(s.subrange(k1, k1 + 10)[0] == s[k1]);
            assert(s.subrange(k2, k2 + 10)[k1 - k2] == s[k1]);
        }
    }
}

/// What a line of pytest output is
pub enum PytFormat {
    H1(String),
    H2(String),
    Location(String, String),
    Other,
}

impl View for PytFormat {
    type V = PytLineFormat;

    open spec fn view(&self) -> PytLineFormat {
        match self {
            PytFormat::H1(t) => PytLineFormat::H1(t@),
            PytFormat::H2(t) => PytLineFormat::H2(t@),
            PytFormat::Location(p, l) => PytLineFormat::Location(p@, l@),
            PytFormat::Other => PytLineFormat::Other,
        }
    }
}

/// What a line of pytest output is
fn recognize_format(s: &[char]) -> (r: PytFormat)
    ensures
        r@ == pytest_format(s@),
{
    if let Some(t) = title_of_exec(s, '=') {
        return PytFormat::H1(t);
    }
    if let Some(t) = title_of_exec(s, '_') {
        return PytFormat::H2(t);
    }
    if let Some((path, line)) = file_line_exec(s) {
        proof {
            let k = choose|k: int| file_line_split(s@, k) && path@ == s@.subrange(5, k + 3) && line@ == s@.skip(k + 10);
            let c = choose|c: int| file_line_split(s@, c);
            lemma_file_line_unique(s@, k, c);
        }
        return PytFormat::Location(path, line);
    }
    if let Some((path, line)) = path_line_exec(s) {
        proof {
            let k = choose|k: int|
                path_line_split(s@, k) && (forall|k2: int| k < k2 ==> !#[trigger] path_line_split(s@, k2))
                    && path@ == s@.take(k + 3) && line@ == s@.subrange(k + 4, line_number_end(s@, k + 4, 0));
            let c = choose|c: int|
                path_line_split(s@, c) && forall|k2: int| c < k2 ==> !#[trigger] path_line_split(s@, k2);
            assert(path_line_split(s@, k) && forall|k2: int| k < k2 ==> !#[trigger] path_line_split(s@, k2));
            if c < k {
                assert(!path_line_split(s@, k));
            } else if k < c {
                assert(!path_line_split(s@, c));
            }
        }
        return PytFormat::Location(path, line);
    }
    PytFormat::Other
}

/// The section of the pytest output
#[derive(Debug, Clone, Copy, PartialEq, Eq, Structural)]
pub enum Section {
    Errors,
    Failures,
    Other,
}

/// The state of the report building: the current section, the items, and
/// the last location written in the current item
pub struct PytestState {
    pub section: Section,
    pub acc: AccView,
    pub last: Option<(Seq<char>, Seq<char>)>,
}

/// The step of the report building for one line: titles open sections and
/// items, locations are rewritten (once per item), styled lines are ignored
pub open spec fn pytest_step(st: PytestState, line: CommandOutputLineView) -> PytestState {
    match unstyled_text(line.content) {
        None => st,
        Some(t) => match pytest_format(t) {
            PytLineFormat::H1(title) => PytestState {
                section: if title == "ERRORS"@ {
                    Section::Errors
                } else if title == "FAILURES"@ {
                    Section::Failures
                } else {
                    Section::Other
                },
                acc: acc_close(st.acc),
                ..st
            },
            PytLineFormat::H2(title) => match st.section {
                Section::Errors => PytestState {
                    acc: acc_push(
                        acc_start(st.acc, Kind::Error),
                        LineType::Title(Kind::Error),
                        error_line_view(title),
                    ),
                    last: None,
                    ..st
                },
                Section::Failures => PytestState {
                    acc: acc_push(
                        acc_start(st.acc, Kind::TestFail),
                        LineType::Title(Kind::TestFail),
                        failure_line_view(title),
                    ),
                    last: None,
                    ..st
                },
                Section::Other => st,
            },
            PytLineFormat::Location(path, ln) => if st.last == Some((path, ln)) {
                st
            } else {
                PytestState {
                    last: Some((path, ln)),
                    acc: acc_push(
                        st.acc,
                        LineType::Location,
                        location_line_view(path + ":"@ + ln),
                    ),
                    ..st
                }
            },
            PytLineFormat::Other => PytestState {
                acc: acc_push(st.acc, LineType::Normal, line.content),
                ..st
            },
        },
    }
}

/// The state after the lines
pub open spec fn pytest_final(lines: Seq<CommandOutputLineView>) -> PytestState {
    lines.fold_left(
        PytestState { section: Section::Other, acc: acc_empty(), last: None },
        |st: PytestState, line: CommandOutputLineView| pytest_step(st, line),
    )
}

/// The lines of the report of a pytest output
pub open spec fn pytest_report_lines(lines: Seq<CommandOutputLineView>) -> Seq<LineView> {
    acc_lines(pytest_final(lines).acc)
}

/// The view of the last location
pub open spec fn last_view(l: Option<(String, String)>) -> Option<(Seq<char>, Seq<char>)> {
    match l {
        Some((p, n)) => Some((p@, n@)),
        None => None,
    }
}

/// The step of the report building for one line
fn pytest_step_exec(
    current_section: &mut Section,
    items: &mut ItemAccumulator,
    last_location_in_item: &mut Option<(String, String)>,
    cmd_line: &CommandOutputLine,
)
    ensures
        (PytestState {
            section: *final(current_section),
            acc: final(items)@,
            last: last_view(*final(last_location_in_item)),
        }) == pytest_step(
            PytestState {
                section: *old(current_section),
                acc: old(items)@,
                last: last_view(*old(last_location_in_item)),
            },
            cmd_line@,
        ),
{
    if let Some(content) = cmd_line.content.if_unstyled() {
        let t = to_chars(content);
        match recognize_format(t.as_slice()) {
            PytFormat::H1(title) => {
                *current_section = if str_eq(title.as_str(), "ERRORS") {
                    Section::Errors
                } else if str_eq(title.as_str(), "FAILURES") {
                    Section::Failures
                } else {
                    Section::Other
                };
                items.close_item();
            },
            PytFormat::H2(title) => match *current_section {
                Section::Errors => {
                    items.push_error_title(error_line(title.as_str()));
                    *last_location_in_item = None;
                },
                Section::Failures => {
                    items.push_failure_title(failure_line(title.as_str()));
                    *last_location_in_item = None;
                },
                Section::Other => {},
            },
            PytFormat::Location(path, line) => {
                let same = match &*last_location_in_item {
                    Some((p, l)) => str_eq(p.as_str(), path.as_str()) && str_eq(
                        l.as_str(),
                        line.as_str(),
                    ),
                    None => false,
                };
                if !same {
                    let mut location = path.clone();
                    location.append(":");
                    location.append(line.as_str());
                    items.push_line(LineType::Location, location_line(location.as_str()));
                    *last_location_in_item = Some((path, line));
                }
            },
            PytFormat::Other => {
                items.push_line(LineType::Normal, cmd_line.content.clone());
            },
        }
    }
}

/// Build a report from the output of pytest
pub fn build_report(cmd_lines: &[CommandOutputLine]) -> (r: Report)
    ensures
        lines_view(r.lines@) == pytest_report_lines(output_lines_view(cmd_lines@)),
        r.stats == stats_of(pytest_report_lines(output_lines_view(cmd_lines@))),
        !r.suggest_backtrace,
        r.output@.len() == 0,
        r.failure_keys@.len() == 0,
        !r.has_passed_tests,
{
    let ghost lv = output_lines_view(cmd_lines@);
    let mut current_section = Section::Other;
    let mut items = ItemAccumulator::new();
    let mut last_location_in_item: Option<(String, String)> = None;
    let n = cmd_lines.len();
    let mut i: usize = 0;
    while i < n
        invariant
            i <= n == cmd_lines@.len() == lv.len(),
            lv == output_lines_view(cmd_lines@),
            (PytestState {
                section: current_section,
                acc: items@,
                last: last_view(last_location_in_item),
            }) == lv.take(i as int).fold_left(
                PytestState { section: Section::Other, acc: acc_empty(), last: None },
                |st: PytestState, line: CommandOutputLineView| pytest_step(st, line),
            ),
        decreases n - i,
    {
        let cmd_line = &cmd_lines[i];
        proof {
            assert(lv.take(i + 1).drop_last() =~= lv.take(i as int));
            assert(lv[i as int] == cmd_line@);
        }
        pytest_step_exec(&mut current_section, &mut items, &mut last_location_in_item, cmd_line);
        i += 1;
    }
    assert(lv.take(n as int) =~= lv);
    items.report()
}

/// The analyzer of pytest outputs
#[derive(Debug)]
pub struct PytestAnalyzer {
    lines: Vec<CommandOutputLine>,
}

impl PytestAnalyzer {
    /// The lines received since the start
    pub closed spec fn received(&self) -> Seq<CommandOutputLineView> {
        output_lines_view(self.lines@)
    }
}

impl Default for PytestAnalyzer {
    fn default() -> (r: Self)
        ensures
            r.received() == Seq::<CommandOutputLineView>::empty(),
    {
        let r = PytestAnalyzer { lines: Vec::new() };
        assert(r.received() =~= Seq::<CommandOutputLineView>::empty());
        r
    }
}

impl Analyzer for PytestAnalyzer {
    fn start(&mut self)
        ensures
            final(self).received() == Seq::<CommandOutputLineView>::empty(),
    {
        self.lines.clear();
        assert(self.received() =~= Seq::<CommandOutputLineView>::empty());
    }

    fn receive_line(&mut self, line: CommandOutputLine, command_output: &mut CommandOutput)
        ensures
            final(self).received() == old(self).received().push(line@),
            final(command_output)@ == old(command_output)@.push(line@),
    {
        self.lines.push(line.clone());
        assert(self.received() =~= old(self).received().push(line@));
        command_output.push(line);
    }

    fn build_report(&mut self) -> (r: Result<Report, AnalysisError>)
        ensures
            final(self).received() == old(self).received(),
            match r {
                Ok(report) => lines_view(report.lines@) == pytest_report_lines(old(self).received())
                    && report.stats == stats_of(pytest_report_lines(old(self).received()))
                    && !report.suggest_backtrace && !report.has_passed_tests
                    && report.failure_keys@.len() == 0,
                Err(_) => false,
            },
    {
        Ok(build_report(self.lines.as_slice()))
    }
}

} // verus!
