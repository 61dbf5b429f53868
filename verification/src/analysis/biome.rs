//! An analyzer for biome ( https://biomejs.dev/ )
use vstd::prelude::*;
use crate::analysis::analyzer::{AnalysisError, Analyzer};
use crate::analysis::item_accumulator::{
    acc_empty,
    acc_lines,
    acc_push,
    acc_start,
    AccView,
    ItemAccumulator,
};
use crate::analysis::line_type::{Kind, LineType};
use crate::analysis::patterns::{lemma_loc_unique, loc_at, loc_exec};
use crate::burp::{error_line, error_line_view, location_line, location_line_view};
use crate::command_output::{output_lines_view, CommandOutput, CommandOutputLine, CommandOutputLineView};
use crate::report::{lines_view, stats_of, LineView, Report};
use crate::text::{is_ws, is_ws_char, string_of, to_chars};
use crate::tline::{is_blank_line, tstring_view, unstyled_text, TLine, TString, TStringView};

verus! {

/// There's a location from `s0` to `c3`, a space, a code (ending at `e`)
/// and a space; when `untagged`, the rest of the line is made of '━'
/// characters, like "src/a.ts:3:8 lint/style/useConst ━━━━━━━━"
pub open spec fn biome_match(s: Seq<char>, s0: int, c3: int, e: int, untagged: bool) -> bool {
    &&& loc_at(s, s0, c3)
    &&& c3 + 1 < e < s.len()
    &&& s[c3] == ' '
    &&& forall|k: int| c3 < k < e ==> !is_ws(#[trigger] s[k])
    &&& s[e] == ' '
    &&& untagged ==> (e + 1 < s.len() && forall|k: int| e < k < s.len() ==> #[trigger] s[k] == '━')
}

/// The first match starts at `s0`
pub open spec fn biome_first_match(s: Seq<char>, s0: int, c3: int, e: int, untagged: bool) -> bool {
    biome_match(s, s0, c3, e, untagged) && forall|j: int, c: int, f: int|
        0 <= j < s0 ==> !#[trigger] biome_match(s, j, c, f, untagged)
}

/// The location and the code of a diagnostic title
pub open spec fn biome_location_code(s: Seq<char>, untagged: bool) -> Option<(Seq<char>, Seq<char>)> {
    if exists|s0: int, c3: int, e: int| biome_first_match(s, s0, c3, e, untagged) {
        let (s0, c3, e) = choose|s0: int, c3: int, e: int| biome_first_match(s, s0, c3, e, untagged);
        Some((s.subrange(s0, c3), s.subrange(c3 + 1, e)))
    } else {
        None
    }
}

proof fn lemma_biome_unique(s: Seq<char>, s0: int, c3: int, e: int, c: int, f: int, u: bool)
    requires
        biome_match(s, s0, c3, e, u),
        biome_match(s, s0, c, f, u),
    ensures
        c3 == c,
        e == f,
{
    lemma_loc_unique(s, s0, c3, c);
    if f < e {
        assert(!is_ws(s[f]));
    } else if e < f {
        assert(!is_ws(s[e]));
    }
}

proof fn lemma_biome_location_code(s: Seq<char>, s0: int, c3: int, e: int, u: bool)
    requires
        biome_first_match(s, s0, c3, e, u),
    ensures
        biome_location_code(s, u) == Some((s.subrange(s0, c3), s.subrange(c3 + 1, e))),
{
    let (a, c, f) = choose|a: int, c: int, f: int| biome_first_match(s, a, c, f, u);
    assert(biome_first_match(s, a, c, f, u));
    if a < s0 {
        assert(!biome_match(s, a, c, f, u));
    } else if s0 < a {
        assert(!biome_match(s, s0, c3, e, u));
    }
    lemma_biome_unique(s, s0, c3, e, c, f, u);
}

/// The location and the code of a diagnostic title
fn biome_location_code_exec(s: &[char], untagged: bool) -> (r: Option<(String, String)>)
    ensures
        match r {
            Some((loc, code)) => biome_location_code(s@, untagged) == Some((loc@, code@)),
            None => biome_location_code(s@, untagged) is None,
        },
{
    let n = s.len();
    let mut s0: usize = 0;
    while s0 < n
        invariant
            s0 <= n == s@.len(),
            forall|j: int, c: int, f: int|
                0 <= j < s0 ==> !#[trigger] biome_match(s@, j, c, f, untagged),
        decreases n - s0,
    {
        if let Some(c3) = loc_exec(s, s0) {
            if c3 < n && s[c3] == ' ' {
                let mut e = c3 + 1;
                while e < n && !is_ws_char(s[e])
                    invariant
                        c3 < e <= n == s@.len(),
                        forall|k: int| c3 < k < e ==> !is_ws(#[trigger] s@[k]),
                    decreases n - e,
                {
                    e += 1;
                }
                let mut ok = e > c3 + 1 && e < n && s[e] == ' ';
                if ok && untagged {
                    if e + 1 >= n {
                        ok = false;
                    } else {
                        let mut k = e + 1;
                        while k < n && s[k] == '━'
                            invariant
                                e < k <= n == s@.len(),
                                forall|j: int| e < j < k ==> #[trigger] s@[j] == '━',
                            decreases n - k,
                        {
                            k += 1;
                        }
                        ok = k == n;
                    }
                }
                if ok {
                    proof {
                        assert(biome_match(s@, s0 as int, c3 as int, e as int, untagged));
                        lemma_biome_location_code(s@, s0 as int, c3 as int, e as int, untagged);
                    }
                    return Some((string_of(s, s0, c3), string_of(s, c3 + 1, e)));
                }
                proof {
                    assert forall|c: int, f: int| !biome_match(s@, s0 as int, c, f, untagged) by {
                        if biome_match(s@, s0 as int, c, f, untagged) {
                            lemma_loc_unique(s@, s0 as int, c3 as int, c);
                            if f < e {
                                assert(!is_ws(s@[f]));
                            } else if e < f {
                                assert(!is_ws(s@[e as int]));
                            }
                        }
                    }
                }
            } else {
                assert forall|c: int, f: int| !biome_match(s@, s0 as int, c, f, untagged) by {
                    if biome_match(s@, s0 as int, c, f, untagged) {
                        lemma_loc_unique(s@, s0 as int, c3 as int, c);
                    }
                }
            }
        }
        s0 += 1;
    }
    assert forall|a: int, c: int, f: int| !biome_first_match(s@, a, c, f, untagged) by {
        if biome_first_match(s@, a, c, f, untagged) {
            assert(!biome_match(s@, a, c, f, untagged));
        }
    }
    None
}

/// The string is a space followed by '━' characters
pub open spec fn is_tag_line_end(s: Seq<char>) -> bool {
    s.len() >= 2 && s[0] == ' ' && forall|k: int| 1 <= k < s.len() ==> #[trigger] s[k] == '━'
}

/// What a line tells: the location, the code and the tag of a diagnostic
/// (like "src/a.ts:3:8 lint/style/useConst FIXABLE ━━━━━━"), or nothing
pub open spec fn biome_recognize(l: Seq<TStringView>) -> Option<(Seq<char>, Seq<char>, Option<TStringView>)> {
    match unstyled_text(l) {
        Some(t) if biome_location_code(t, true) is Some => {
            let (loc, code) = biome_location_code(t, true)->0;
            Some((loc, code, None))
        },
        _ => if l.len() >= 3 && l[0].csi.len() == 0 && l[2].csi.len() == 0 && is_tag_line_end(l[2].raw)
            && biome_location_code(l[0].raw, false) is Some {
            let (loc, code) = biome_location_code(l[0].raw, false)->0;
            Some((loc, code, Some(l[1])))
        } else {
            None
        },
    }
}

/// Whether the string is a space followed by '━' characters
fn is_tag_line_end_exec(s: &str) -> (r: bool)
    ensures
        r == is_tag_line_end(s@),
{
    let c = to_chars(s);
    if c.len() < 2 || c[0] != ' ' {
        return false;
    }
    let mut k: usize = 1;
    while k < c.len()
        invariant
            1 <= k <= c@.len(),
            c@ == s@,
            forall|j: int| 1 <= j < k ==> #[trigger] c@[j] == '━',
        decreases c@.len() - k,
    {
        if c[k] != '━' {
            return false;
        }
        k += 1;
    }
    true
}

/// What a line tells: the location, the code and the tag of a diagnostic
fn biome_recognize_exec(content: &TLine) -> (r: Option<(String, String, Option<TString>)>)
    ensures
        match r {
            Some((loc, code, tag)) => biome_recognize(content@) == Some(
                (
                    loc@,
                    code@,
                    match tag {
                        Some(t) => Some(t@),
                        None => None,
                    },
                ),
            ),
            None => biome_recognize(content@) is None,
        },
{
    if let Some(t) = content.if_unstyled() {
        let c = to_chars(t);
        if let Some((loc, code)) = biome_location_code_exec(c.as_slice(), true) {
            return Some((loc, code, None));
        }
    }
    let strings = content.strings.as_slice();
    if strings.len() < 3 {
        return None;
    }
    assert(forall|i: int| 0 <= i < 3 ==> content@[i] == #[trigger] strings@[i]@);
    if !strings[0].is_unstyled() || !strings[2].is_unstyled() || !is_tag_line_end_exec(
        strings[2].raw.as_str(),
    ) {
        return None;
    }
    let a = to_chars(strings[0].raw.as_str());
    match biome_location_code_exec(a.as_slice(), false) {
        Some((loc, code)) => Some((loc, code, Some(strings[1].clone()))),
        None => None,
    }
}

/// The title of a diagnostic: an error line with the code, then the tag
pub open spec fn biome_title(code: Seq<char>, tag: Option<TStringView>) -> Seq<TStringView> {
    match tag {
        Some(t) => error_line_view(code) + seq![tstring_view(""@, " "@), t],
        None => error_line_view(code),
    }
}

/// The step of the report building for one line: a diagnostic title gives
/// an error item with its location, other lines go to the current item,
/// blank lines being deduplicated
pub open spec fn biome_step(st: (AccView, bool), line: CommandOutputLineView) -> (AccView, bool) {
    match biome_recognize(line.content) {
        Some((loc, code, tag)) => (
            acc_push(
                acc_push(
                    acc_start(st.0, Kind::Error),
                    LineType::Title(Kind::Error),
                    biome_title(code, tag),
                ),
                LineType::Location,
                location_line_view(loc),
            ),
            false,
        ),
        None => {
            let blank = is_blank_line(line.content);
            (
                if blank && st.1 {
                    st.0
                } else {
                    acc_push(st.0, LineType::Normal, line.content)
                },
                blank,
            )
        },
    }
}

/// The lines of the report of a biome output
pub open spec fn biome_report_lines(lines: Seq<CommandOutputLineView>) -> Seq<LineView> {
    acc_lines(
        lines.fold_left(
            (acc_empty(), true),
            |st: (AccView, bool), line: CommandOutputLineView| biome_step(st, line),
        ).0,
    )
}

/// Build a report from the output of biome
pub fn build_report(cmd_lines: &[CommandOutputLine]) -> (r: Report)
    ensures
        lines_view(r.lines@) == biome_report_lines(output_lines_view(cmd_lines@)),
        r.stats == stats_of(biome_report_lines(output_lines_view(cmd_lines@))),
        !r.suggest_backtrace,
        r.output@.len() == 0,
        r.failure_keys@.len() == 0,
        !r.has_passed_tests,
{
    let ghost lv = output_lines_view(cmd_lines@);
    let mut items = ItemAccumulator::new();
    let mut last_is_blank = true;
    let n = cmd_lines.len();
    let mut i: usize = 0;
    while i < n
        invariant
            i <= n == cmd_lines@.len() == lv.len(),
            lv == output_lines_view(cmd_lines@),
            (items@, last_is_blank) == lv.take(i as int).fold_left(
                (acc_empty(), true),
                |st: (AccView, bool), line: CommandOutputLineView| biome_step(st, line),
            ),
        decreases n - i,
    {
        let cmd_line = &cmd_lines[i];
        proof {
            assert(lv.take(i + 1).drop_last() =~= lv.take(i as int));
            assert(lv[i as int] == cmd_line@);
        }
        match biome_recognize_exec(&cmd_line.content) {
            Some((location, code, tag)) => {
                let mut title = error_line(code.as_str());
                if let Some(tag) = tag {
                    let ghost before = title@;
                    title.strings.push(TString::new("", " "));
                    title.strings.push(tag);
                    assert(title@ =~= before + seq![tstring_view(""@, " "@), tag@]);
                }
                items.push_error_title(title);
                items.push_line(LineType::Location, location_line(location.as_str()));
                last_is_blank = false;
            },
            None => {
                let is_blank = cmd_line.content.is_blank();
                if !(is_blank && last_is_blank) {
                    items.push_line(LineType::Normal, cmd_line.content.clone());
                }
                last_is_blank = is_blank;
            },
        }
        i += 1;
    }
    assert(lv.take(n as int) =~= lv);
    items.report()
}

/// The analyzer of biome outputs
#[derive(Debug)]
pub struct BiomeAnalyzer {
    lines: Vec<CommandOutputLine>,
}

impl BiomeAnalyzer {
    /// The lines received since the start
    pub closed spec fn received(&self) -> Seq<CommandOutputLineView> {
        output_lines_view(self.lines@)
    }
}

impl Default for BiomeAnalyzer {
    fn default() -> (r: Self)
        ensures
            r.received() == Seq::<CommandOutputLineView>::empty(),
    {
        let r = BiomeAnalyzer { lines: Vec::new() };
        assert(r.received() =~= Seq::<CommandOutputLineView>::empty());
        r
    }
}

impl Analyzer for BiomeAnalyzer {
    fn start(&mut self)
        ensures
            final(self).received() == Seq::<CommandOutputLineView>::empty(),
    {
        self.lines.clear();
        assert(self.received() =~= Seq::<CommandOutputLineView>::empty());
    }

    fn receive_line(&mut self, line: CommandOutputLine, command_output: &mut CommandOutput)
        ensures
            final(self).received() == old(self).received().push(line@),
            final(command_output)@ == old(command_output)@.push(line@),
    {
        self.lines.push(line.clone());
        assert(self.received() =~= old(self).received().push(line@));
        command_output.push(line);
    }

    fn build_report(&mut self) -> (r: Result<Report, AnalysisError>)
        ensures
            final(self).received() == old(self).received(),
            match r {
                Ok(report) => lines_view(report.lines@) == biome_report_lines(old(self).received())
                    && report.stats == stats_of(biome_report_lines(old(self).received()))
                    && !report.suggest_backtrace && !report.has_passed_tests
                    && report.failure_keys@.len() == 0,
                Err(_) => false,
            },
    {
        Ok(build_report(self.lines.as_slice()))
    }
}

} // verus!
