//! The actions that can be mapped to keys, and their writing in
//! configuration files.
use vstd::prelude::*;
use crate::text::{
    leading_ws_count, trim_end, trim_start,
    all_ws, is_any, first_char_from, lemma_first_char_from_is, find_char_from, is_ws, is_ws_char, lemma_first_char_from, no_lf,
    no_lf_exec, occurs_at, occurs_at_exec, opt_view, push_all, push_char, string_of, to_chars,
    trim, trim_bounds,
};

verus! {

/// A menu of actions, with an optional introduction
#[derive(Debug, PartialEq, Eq)]
pub struct ActionMenuDefinition {
    pub intro: Option<String>,
    pub actions: Vec<Action>,
}

/// A sound to play: its name and its volume, as written in the action
#[derive(Debug, PartialEq, Eq)]
pub struct PlaySoundCommand {
    pub name: Option<String>,
    pub volume: Option<String>,
}

/// An action that can be executed in the system, eg mapped to a key.
///
/// The references to jobs, the scroll commands and the volumes are kept as
/// they're written: they're read where they're used.
#[derive(Debug, PartialEq, Eq)]
pub enum Action {
    Back,
    BackOrQuit,
    CopyUnstyledOutput,
    DismissTop,
    DismissTopItem,
    DismissTopItemType,
    Export(String),
    FocusFile(String),
    FocusGoto,
    FocusSearch,
    Help,
    Job(String),
    NextMatch,
    NoOp,
    OpenJobsMenu,
    OpenMenu(Box<ActionMenuDefinition>),
    Pause,
    PlaySound(PlaySoundCommand),
    PreviousMatch,
    Quit,
    ReRun,
    Refresh,
    ReloadConfig,
    ScopeToFailures,
    Scroll(String),
    ToggleBacktrace(String),
    TogglePause,
    ToggleRawOutput,
    ToggleSummary,
    ToggleWrap,
    UndismissAll,
    UndismissLocation(String),
    UndismissDiagType(String),
    OpenUndismissMenu,
    Unpause,
    Validate,
}

/// The value of an action, with sequences of characters for its strings
pub enum ActionView {
    Back,
    BackOrQuit,
    CopyUnstyledOutput,
    DismissTop,
    DismissTopItem,
    DismissTopItemType,
    Export(Seq<char>),
    FocusFile(Seq<char>),
    FocusGoto,
    FocusSearch,
    Help,
    Job(Seq<char>),
    NextMatch,
    NoOp,
    OpenJobsMenu,
    OpenMenu(Option<Seq<char>>, Seq<ActionView>),
    Pause,
    PlaySound(Option<Seq<char>>, Option<Seq<char>>),
    PreviousMatch,
    Quit,
    ReRun,
    Refresh,
    ReloadConfig,
    ScopeToFailures,
    Scroll(Seq<char>),
    ToggleBacktrace(Seq<char>),
    TogglePause,
    ToggleRawOutput,
    ToggleSummary,
    ToggleWrap,
    UndismissAll,
    UndismissLocation(Seq<char>),
    UndismissDiagType(Seq<char>),
    OpenUndismissMenu,
    Unpause,
    Validate,
}

/// Why a string isn't an action
#[derive(Debug, PartialEq, Eq)]
pub enum ParseActionError {
    InvalidBacktraceLevel(String),
    InvalidPlaySoundParameter(String),
    UnknownAction(String),
}

pub enum ParseActionErrorView {
    InvalidBacktraceLevel(Seq<char>),
    InvalidPlaySoundParameter(Seq<char>),
    UnknownAction(Seq<char>),
}

pub open spec fn error_view(e: ParseActionError) -> ParseActionErrorView {
    match e {
        ParseActionError::InvalidBacktraceLevel(s) => ParseActionErrorView::InvalidBacktraceLevel(s@),
        ParseActionError::InvalidPlaySoundParameter(s) => ParseActionErrorView::InvalidPlaySoundParameter(
            s@,
        ),
        ParseActionError::UnknownAction(s) => ParseActionErrorView::UnknownAction(s@),
    }
}

pub open spec fn action_view(a: Action) -> ActionView
    decreases a, 0nat,
{
    match a {
        Action::Back => ActionView::Back,
        Action::BackOrQuit => ActionView::BackOrQuit,
        Action::CopyUnstyledOutput => ActionView::CopyUnstyledOutput,
        Action::DismissTop => ActionView::DismissTop,
        Action::DismissTopItem => ActionView::DismissTopItem,
        Action::DismissTopItemType => ActionView::DismissTopItemType,
        Action::Export(s) => ActionView::Export(s@),
        Action::FocusFile(s) => ActionView::FocusFile(s@),
        Action::FocusGoto => ActionView::FocusGoto,
        Action::FocusSearch => ActionView::FocusSearch,
        Action::Help => ActionView::Help,
        Action::Job(s) => ActionView::Job(s@),
        Action::NextMatch => ActionView::NextMatch,
        Action::NoOp => ActionView::NoOp,
        Action::OpenJobsMenu => ActionView::OpenJobsMenu,
        Action::OpenMenu(m) => ActionView::OpenMenu(opt_view(m.intro), actions_view(m.actions@)),
        Action::Pause => ActionView::Pause,
        Action::PlaySound(p) => ActionView::PlaySound(opt_view(p.name), opt_view(p.volume)),
        Action::PreviousMatch => ActionView::PreviousMatch,
        Action::Quit => ActionView::Quit,
        Action::ReRun => ActionView::ReRun,
        Action::Refresh => ActionView::Refresh,
        Action::ReloadConfig => ActionView::ReloadConfig,
        Action::ScopeToFailures => ActionView::ScopeToFailures,
        Action::Scroll(s) => ActionView::Scroll(s@),
        Action::ToggleBacktrace(s) => ActionView::ToggleBacktrace(s@),
        Action::TogglePause => ActionView::TogglePause,
        Action::ToggleRawOutput => ActionView::ToggleRawOutput,
        Action::ToggleSummary => ActionView::ToggleSummary,
        Action::ToggleWrap => ActionView::ToggleWrap,
        Action::UndismissAll => ActionView::UndismissAll,
        Action::UndismissLocation(s) => ActionView::UndismissLocation(s@),
        Action::UndismissDiagType(s) => ActionView::UndismissDiagType(s@),
        Action::OpenUndismissMenu => ActionView::OpenUndismissMenu,
        Action::Unpause => ActionView::Unpause,
        Action::Validate => ActionView::Validate,
    }
}

pub open spec fn actions_view(s: Seq<Action>) -> Seq<ActionView>
    decreases s, 1nat,
{
    if s.len() == 0 {
        Seq::empty()
    } else {
        actions_view(s.subrange(0, s.len() - 1)).push(action_view(s[s.len() - 1]))
    }
}

impl View for Action {
    type V = ActionView;

    open spec fn view(&self) -> ActionView {
        action_view(*self)
    }
}

/// The action named by `t`, for the actions written by a name alone
pub open spec fn plain_action(t: Seq<char>) -> Option<ActionView> {
    if t == "back"@ {
        Some(ActionView::Back)
    } else if t == "back-or-quit"@ {
        Some(ActionView::BackOrQuit)
    } else if t == "dismiss-top"@ {
        Some(ActionView::DismissTop)
    } else if t == "dismiss-top-item"@ {
        Some(ActionView::DismissTopItem)
    } else if t == "dismiss-top-item-type"@ {
        Some(ActionView::DismissTopItemType)
    } else if t == "help"@ {
        Some(ActionView::Help)
    } else if t == "quit"@ {
        Some(ActionView::Quit)
    } else if t == "refresh"@ {
        Some(ActionView::Refresh)
    } else if t == "reload-config"@ {
        Some(ActionView::ReloadConfig)
    } else if t == "rerun"@ {
        Some(ActionView::ReRun)
    } else if t == "scope-to-failures"@ {
        Some(ActionView::ScopeToFailures)
    } else if t == "toggle-raw-output"@ {
        Some(ActionView::ToggleRawOutput)
    } else if t == "toggle-backtrace"@ {
        Some(ActionView::ToggleBacktrace("1"@))
    } else if t == "toggle-summary"@ {
        Some(ActionView::ToggleSummary)
    } else if t == "toggle-wrap"@ {
        Some(ActionView::ToggleWrap)
    } else if t == "noop"@ || t == "no-op"@ || t == "no-operation"@ {
        Some(ActionView::NoOp)
    } else if t == "pause"@ {
        Some(ActionView::Pause)
    } else if t == "unpause"@ {
        Some(ActionView::Unpause)
    } else if t == "toggle-pause"@ {
        Some(ActionView::TogglePause)
    } else if t == "focus-search"@ {
        Some(ActionView::FocusSearch)
    } else if t == "focus-goto"@ {
        Some(ActionView::FocusGoto)
    } else if t == "validate"@ {
        Some(ActionView::Validate)
    } else if t == "next-match"@ {
        Some(ActionView::NextMatch)
    } else if t == "previous-match"@ {
        Some(ActionView::PreviousMatch)
    } else if t == "undismiss-all"@ {
        Some(ActionView::UndismissAll)
    } else if t == "open-undismiss-menu"@ {
        Some(ActionView::OpenUndismissMenu)
    } else if t == "copy-unstyled-output"@ {
        Some(ActionView::CopyUnstyledOutput)
    } else if t == "play-sound"@ {
        Some(ActionView::PlaySound(None, None))
    } else {
        None
    }
}

/// The action without its optional "internal:" prefix
pub open spec fn strip_internal(s: Seq<char>) -> Seq<char> {
    if occurs_at(s, "internal:"@, 0) {
        s.skip(9)
    } else {
        s
    }
}

/// What stands between `prefix` (which ends with an opening parenthesis)
/// and the closing parenthesis ending `t`
pub open spec fn paren_arg(t: Seq<char>, prefix: Seq<char>) -> Option<Seq<char>> {
    if occurs_at(t, prefix, 0) && t.len() >= prefix.len() + 1 && t.last() == ')' {
        Some(t.subrange(prefix.len() as int, t.len() - 1))
    } else {
        None
    }
}

/// The end of the line holding position `k`: the first line feed from `k`
pub open spec fn line_end(s: Seq<char>, k: int) -> int {
    match first_char_from(s, '\n', k) {
        Some(j) => j,
        None => s.len() as int,
    }
}

/// The level between the parentheses of "toggle-backtrace( level )", when
/// the pattern matches with at most `k` leading spaces taken out: the
/// level can't hold a line feed, and only white space may follow it
pub open spec fn backtrace_level_from(inner: Seq<char>, k: int) -> Option<Seq<char>>
    decreases k + 1,
{
    if k < 0 {
        None
    } else if k < inner.len() && inner[k] != '\n' && all_ws(inner.skip(line_end(inner, k))) {
        Some(inner.subrange(k, line_end(inner, k)))
    } else {
        backtrace_level_from(inner, k - 1)
    }
}

pub open spec fn backtrace_level(inner: Seq<char>) -> Option<Seq<char>> {
    backtrace_level_from(inner, leading_ws_count(inner) as int)
}

pub open spec fn is_backtrace_level(l: Seq<char>) -> bool {
    l == "0"@ || l == "1"@ || l == "2"@ || l == "full"@
}

/// The end of the run of characters, from `i`, which are neither `=` nor `,`
pub open spec fn run_end(p: Seq<char>, i: int) -> int
    decreases p.len() - i,
{
    if i < 0 || i >= p.len() || p[i] == '=' || p[i] == ',' {
        i
    } else {
        run_end(p, i + 1)
    }
}

/// Whether a "key=value" pair, with neither `=` nor `,` in key or value,
/// starts at `i`
pub open spec fn pair_at(p: Seq<char>, i: int) -> bool {
    let k = run_end(p, i);
    &&& 0 <= i < p.len()
    &&& k > i
    &&& k + 1 < p.len()
    &&& p[k] == '='
    &&& p[k + 1] != '=' && p[k + 1] != ','
}

/// The "key=value" pairs of `p` from `from`, leftmost first, without
/// overlap
pub open spec fn pairs_from(p: Seq<char>, from: int) -> Seq<(Seq<char>, Seq<char>)>
    decreases p.len() - from,
{
    if from < 0 || from >= p.len() {
        Seq::empty()
    } else if pair_at(p, from) {
        let k = run_end(p, from);
        let e = run_end(p, k + 1);
        if e <= from || e > p.len() {
            Seq::empty()
        } else {
            seq![(p.subrange(from, k), p.subrange(k + 1, e))] + pairs_from(p, e)
        }
    } else {
        pairs_from(p, from + 1)
    }
}

/// The sound to play given by the pairs, from the `i`th on, given the name
/// and volume of the pairs before
pub open spec fn play_sound_of(
    pairs: Seq<(Seq<char>, Seq<char>)>,
    i: int,
    name: Option<Seq<char>>,
    volume: Option<Seq<char>>,
) -> Result<ActionView, ParseActionErrorView>
    decreases pairs.len() - i,
{
    if i < 0 || i >= pairs.len() {
        Ok(ActionView::PlaySound(name, volume))
    } else {
        let (k, v) = pairs[i];
        if trim(k) == "name"@ {
            play_sound_of(pairs, i + 1, Some(trim(v)), volume)
        } else if trim(k) == "volume"@ {
            play_sound_of(pairs, i + 1, name, Some(trim(v)))
        } else {
            Err(ParseActionErrorView::InvalidPlaySoundParameter(k))
        }
    }
}

/// The position of the comma ending the introduction of a menu, the
/// largest from `i` down: the introduction holds no line feed, and after
/// the comma and some white space come the actions
pub open spec fn menu_intro_end(m: Seq<char>, i: int) -> Option<int>
    decreases i,
{
    if i < 7 {
        None
    } else if intro_end_at(m, i) {
        Some(i)
    } else {
        menu_intro_end(m, i - 1)
    }
}

/// Whether the introduction of a menu can end at the comma at `i`
pub open spec fn intro_end_at(m: Seq<char>, i: int) -> bool {
    &&& 0 <= i < m.len()
    &&& m[i] == ','
    &&& no_lf(m.subrange(6, i))
    &&& {
        let j = i + 1 + leading_ws_count(m.skip(i + 1));
        occurs_at(m, "actions=["@, j) && m.len() > j + 9 && no_lf(m.skip(j + 9))
    }
}

/// The introduction and the actions of "open-menu(intro=..., actions=[...])"
/// with `m` what stands between "open-menu(" and "])"
pub open spec fn menu_parts(m: Seq<char>) -> Option<(Option<Seq<char>>, Seq<char>)> {
    match (if occurs_at(m, "intro="@, 0) { menu_intro_end(m, m.len() - 1) } else { None }) {
        Some(i) => {
            let j = i + 1 + leading_ws_count(m.skip(i + 1));
            Some((Some(m.subrange(6, i)), m.skip(j + 9)))
        },
        None => if occurs_at(m, "actions=["@, 0) && m.len() > 9 && no_lf(m.skip(9)) {
            Some((None, m.skip(9)))
        } else {
            None
        },
    }
}

/// What stands between "open-menu(" and "])" ending `t`
pub open spec fn menu_inner(t: Seq<char>) -> Option<Seq<char>> {
    if occurs_at(t, "open-menu("@, 0) && t.len() >= 12 && occurs_at(t, "])"@, t.len() - 2) {
        Some(t.subrange(10, t.len() - 2))
    } else {
        None
    }
}

/// The actions of a menu, written separated by commas, blank ones skipped;
/// the first which isn't an action gives the error
pub open spec fn spec_parse_items(a: Seq<char>) -> Result<Seq<ActionView>, ParseActionErrorView>
    decreases a.len(), 1nat,
{
    if a.len() == 0 {
        Ok(Seq::empty())
    } else {
        let k = match first_char_from(a, ',', 0) {
            Some(k) => k,
            None => a.len() as int,
        };
        let piece = trim(a.subrange(0, k));
        let rest = if k < a.len() { a.skip(k + 1) } else { Seq::empty() };
        proof {
            lemma_first_char_from(a, ',', 0);
            lemma_trim_len(a.subrange(0, k));
        }
        if piece.len() == 0 {
            spec_parse_items(rest)
        } else {
            match spec_parse_action(piece) {
                Err(e) => Err(e),
                Ok(x) => match spec_parse_items(rest) {
                    Err(e) => Err(e),
                    Ok(xs) => Ok(seq![x] + xs),
                },
            }
        }
    }
}

/// The action written `s`, or why it isn't one
pub open spec fn spec_parse_action(s: Seq<char>) -> Result<ActionView, ParseActionErrorView>
    decreases s.len(), 0nat,
{
    let t = strip_internal(s);
    if occurs_at(s, "export:"@, 0) && s.len() > 7 && no_lf(s.skip(7)) {
        Ok(ActionView::Export(s.skip(7)))
    } else if occurs_at(s, "job:"@, 0) && s.len() > 4 && no_lf(s.skip(4)) {
        Ok(ActionView::Job(s.skip(4)))
    } else if plain_action(t) is Some {
        Ok(plain_action(t).unwrap())
    } else if menu_inner(t) is Some && menu_parts(menu_inner(t).unwrap()) is Some {
        let (intro, items) = menu_parts(menu_inner(t).unwrap()).unwrap();
        proof {
            lemma_menu_parts_shorter(menu_inner(t).unwrap());
            reveal_strlit("internal:");
            assert(menu_inner(t).unwrap().len() < t.len());
            assert(t.len() <= s.len());
        }
        match spec_parse_items(items) {
            Ok(xs) => Ok(ActionView::OpenMenu(intro, xs)),
            Err(e) => Err(e),
        }
    } else if (s.len() >= 14 && occurs_at(s, "open-jobs-menu"@, s.len() - 14)) || (s.len() >= 13
        && occurs_at(s, "open-job-menu"@, s.len() - 13)) {
        Ok(ActionView::OpenJobsMenu)
    } else {
        spec_parse_with_arguments(s, t)
    }
}

/// The actions taking arguments between parentheses, and the scroll
/// commands, of `s` whose part after "internal:" is `t`
pub open spec fn spec_parse_with_arguments(s: Seq<char>, t: Seq<char>) -> Result<ActionView, ParseActionErrorView> {
    if paren_arg(t, "toggle-backtrace("@) is Some && backtrace_level(
        paren_arg(t, "toggle-backtrace("@).unwrap(),
    ) is Some {
        let l = backtrace_level(paren_arg(t, "toggle-backtrace("@).unwrap()).unwrap();
        if is_backtrace_level(l) {
            Ok(ActionView::ToggleBacktrace(l))
        } else {
            Err(ParseActionErrorView::InvalidBacktraceLevel(l))
        }
    } else if paren_arg(t, "undismiss-location("@) is Some && paren_arg(t, "undismiss-location("@).unwrap().len()
        > 0 && no_lf(paren_arg(t, "undismiss-location("@).unwrap()) {
        Ok(ActionView::UndismissLocation(paren_arg(t, "undismiss-location("@).unwrap()))
    } else if paren_arg(t, "undismiss-diag-type("@) is Some && paren_arg(t, "undismiss-diag-type("@).unwrap().len()
        > 0 && no_lf(paren_arg(t, "undismiss-diag-type("@).unwrap()) {
        Ok(ActionView::UndismissDiagType(paren_arg(t, "undismiss-diag-type("@).unwrap()))
    } else if paren_arg(t, "play-sound("@) is Some && no_lf(paren_arg(t, "play-sound("@).unwrap()) {
        play_sound_of(pairs_from(paren_arg(t, "play-sound("@).unwrap(), 0), 0, None, None)
    } else if paren_arg(t, "focus-file("@) is Some && no_lf(paren_arg(t, "focus-file("@).unwrap()) {
        Ok(ActionView::FocusFile(paren_arg(t, "focus-file("@).unwrap()))
    } else if paren_arg(t, "focus_file("@) is Some && no_lf(paren_arg(t, "focus_file("@).unwrap()) {
        Ok(ActionView::FocusFile(paren_arg(t, "focus_file("@).unwrap()))
    } else if occurs_at(t, "scroll"@, 0) && t.len() > 6 && no_lf(t.skip(6)) {
        Ok(ActionView::Scroll(t))
    } else {
        Err(ParseActionErrorView::UnknownAction(s))
    }
}

pub proof fn lemma_menu_intro_end(m: Seq<char>, i: int)
    ensures
        match menu_intro_end(m, i) {
            Some(x) => 7 <= x < m.len() && {
                let j = x + 1 + leading_ws_count(m.skip(x + 1));
                m.len() > j + 9
            },
            None => true,
        },
    decreases i,
{
    if i >= 7 {
        lemma_menu_intro_end(m, i - 1);
    }
}

pub proof fn lemma_menu_parts_shorter(m: Seq<char>)
    ensures
        menu_parts(m) is Some ==> menu_parts(m).unwrap().1.len() < m.len(),
{
    lemma_menu_intro_end(m, m.len() - 1);
}

/// Trimming never lengthens
pub proof fn lemma_trim_len(s: Seq<char>)
    ensures
        trim(s).len() <= s.len(),
{
    lemma_trim_start_len(s);
    lemma_trim_end_len(trim_start(s));
}

pub proof fn lemma_trim_start_len(s: Seq<char>)
    ensures
        trim_start(s).len() <= s.len(),
    decreases s.len(),
{
    if s.len() > 0 && is_ws(s[0]) {
        lemma_trim_start_len(s.drop_first());
    }
}

pub proof fn lemma_trim_end_len(s: Seq<char>)
    ensures
        trim_end(s).len() <= s.len(),
    decreases s.len(),
{
    if s.len() > 0 && is_ws(s.last()) {
        lemma_trim_end_len(s.drop_last());
    }
}

fn eq_lit(t: &[char], lit: &str) -> (r: bool)
    ensures
        r == (t@ == lit@),
{
    let l = to_chars(lit);
    crate::text::slice_eq(t, l.as_slice())
}

fn starts_lit(t: &[char], lit: &str, i: usize) -> (r: bool)
    ensures
        r == occurs_at(t@, lit@, i as int),
{
    let l = to_chars(lit);
    occurs_at_exec(t, l.as_slice(), i)
}

fn lit_len(lit: &str) -> (r: usize)
    ensures
        r == lit@.len(),
{
    to_chars(lit).len()
}

fn plain_action_exec(t: &[char]) -> (r: Option<Action>)
    ensures
        match r {
            Some(a) => plain_action(t@) == Some(a@),
            None => plain_action(t@) is None,
        },
{
    if eq_lit(t, "back") {
        Some(Action::Back)
    } else if eq_lit(t, "back-or-quit") {
        Some(Action::BackOrQuit)
    } else if eq_lit(t, "dismiss-top") {
        Some(Action::DismissTop)
    } else if eq_lit(t, "dismiss-top-item") {
        Some(Action::DismissTopItem)
    } else if eq_lit(t, "dismiss-top-item-type") {
        Some(Action::DismissTopItemType)
    } else if eq_lit(t, "help") {
        Some(Action::Help)
    } else if eq_lit(t, "quit") {
        Some(Action::Quit)
    } else if eq_lit(t, "refresh") {
        Some(Action::Refresh)
    } else if eq_lit(t, "reload-config") {
        Some(Action::ReloadConfig)
    } else if eq_lit(t, "rerun") {
        Some(Action::ReRun)
    } else if eq_lit(t, "scope-to-failures") {
        Some(Action::ScopeToFailures)
    } else if eq_lit(t, "toggle-raw-output") {
        Some(Action::ToggleRawOutput)
    } else if eq_lit(t, "toggle-backtrace") {
        Some(Action::ToggleBacktrace(String::from_str("1")))
    } else if eq_lit(t, "toggle-summary") {
        Some(Action::ToggleSummary)
    } else if eq_lit(t, "toggle-wrap") {
        Some(Action::ToggleWrap)
    } else if eq_lit(t, "noop") || eq_lit(t, "no-op") || eq_lit(t, "no-operation") {
        Some(Action::NoOp)
    } else if eq_lit(t, "pause") {
        Some(Action::Pause)
    } else if eq_lit(t, "unpause") {
        Some(Action::Unpause)
    } else if eq_lit(t, "toggle-pause") {
        Some(Action::TogglePause)
    } else if eq_lit(t, "focus-search") {
        Some(Action::FocusSearch)
    } else if eq_lit(t, "focus-goto") {
        Some(Action::FocusGoto)
    } else if eq_lit(t, "validate") {
        Some(Action::Validate)
    } else if eq_lit(t, "next-match") {
        Some(Action::NextMatch)
    } else if eq_lit(t, "previous-match") {
        Some(Action::PreviousMatch)
    } else if eq_lit(t, "undismiss-all") {
        Some(Action::UndismissAll)
    } else if eq_lit(t, "open-undismiss-menu") {
        Some(Action::OpenUndismissMenu)
    } else if eq_lit(t, "copy-unstyled-output") {
        Some(Action::CopyUnstyledOutput)
    } else if eq_lit(t, "play-sound") {
        Some(Action::PlaySound(PlaySoundCommand { name: None, volume: None }))
    } else {
        None
    }
}

fn sub_vec(c: &[char], from: usize, to: usize) -> (r: Vec<char>)
    requires
        from <= to <= c@.len(),
    ensures
        r@ == c@.subrange(from as int, to as int),
{
    let mut r: Vec<char> = Vec::new();
    let mut i = from;
    while i < to
        invariant
            from <= i <= to <= c@.len(),
            r@ == c@.subrange(from as int, i as int),
        decreases to - i,
    {
        r.push(c[i]);
        assert(c@.subrange(from as int, i + 1) =~= c@.subrange(from as int, i as int).push(c@[i as int]));
        i += 1;
    }
    r
}

/// The bounds of what stands between `prefix` and the closing parenthesis
fn paren_arg_exec(t: &[char], prefix: &str) -> (r: Option<(usize, usize)>)
    ensures
        match r {
            Some((a, b)) => a <= b <= t@.len() && paren_arg(t@, prefix@) == Some(
                t@.subrange(a as int, b as int),
            ),
            None => paren_arg(t@, prefix@) is None,
        },
{
    let n = lit_len(prefix);
    if starts_lit(t, prefix, 0) && n < t.len() && t[t.len() - 1] == ')' {
        Some((n, t.len() - 1))
    } else {
        None
    }
}

fn line_end_exec(s: &[char], k: usize) -> (r: usize)
    requires
        k <= s@.len(),
    ensures
        r == line_end(s@, k as int),
        k <= r <= s@.len(),
{
    proof {
        lemma_first_char_from(s@, '\n', k as int);
    }
    match find_char_from(s, '\n', k) {
        Some(j) => j,
        None => s.len(),
    }
}

fn backtrace_level_exec(inner: &[char]) -> (r: Option<(usize, usize)>)
    ensures
        match r {
            Some((a, b)) => a <= b <= inner@.len() && backtrace_level(inner@) == Some(
                inner@.subrange(a as int, b as int),
            ),
            None => backtrace_level(inner@) is None,
        },
{
    let lead = crate::text::leading_ws(inner, 0, inner.len());
    assert(inner@.subrange(0, inner@.len() as int) =~= inner@);
    let mut k: usize = lead;
    loop
        invariant
            k <= inner@.len(),
            backtrace_level(inner@) == backtrace_level_from(inner@, k as int),
        decreases k,
    {
        if k < inner.len() && inner[k] != '\n' {
            let e = line_end_exec(inner, k);
            assert(inner@.skip(e as int) =~= inner@.subrange(e as int, inner@.len() as int));
            if crate::text::all_ws_exec(inner, e, inner.len()) {
                return Some((k, e));
            }
        }
        if k == 0 {
            return None;
        }
        k -= 1;
    }
}

fn run_end_exec(p: &[char], i: usize) -> (r: usize)
    requires
        i <= p@.len(),
    ensures
        r == run_end(p@, i as int),
        i <= r <= p@.len(),
{
    let mut j = i;
    while j < p.len() && p[j] != '=' && p[j] != ','
        invariant
            i <= j <= p@.len(),
            run_end(p@, i as int) == run_end(p@, j as int),
        decreases p@.len() - j,
    {
        j += 1;
    }
    j
}

fn trimmed(c: &[char], from: usize, to: usize) -> (r: Vec<char>)
    requires
        from <= to <= c@.len(),
    ensures
        r@ == trim(c@.subrange(from as int, to as int)),
{
    let (a, b) = trim_bounds(c, from, to);
    sub_vec(c, a, b)
}

fn play_sound_exec(p: &[char]) -> (r: Result<Action, ParseActionError>)
    ensures
        match r {
            Ok(a) => play_sound_of(pairs_from(p@, 0), 0, None, None) == Ok::<ActionView, ParseActionErrorView>(a@),
            Err(e) => play_sound_of(pairs_from(p@, 0), 0, None, None) == Err::<ActionView, ParseActionErrorView>(error_view(e)),
        },
{
    let mut name: Option<String> = None;
    let mut volume: Option<String> = None;
    let mut from: usize = 0;
    let ghost done: Seq<(Seq<char>, Seq<char>)> = Seq::empty();
    while from < p.len()
        invariant
            from <= p@.len(),
            pairs_from(p@, 0) == done + pairs_from(p@, from as int),
            play_sound_of(pairs_from(p@, 0), 0, None, None) == play_sound_of(
                pairs_from(p@, 0),
                done.len() as int,
                opt_view(name),
                opt_view(volume),
            ),
        decreases p@.len() - from,
    {
        let k = run_end_exec(p, from);
        let is_pair = k > from && k < p.len() - 1 && p[k] == '=' && p[k + 1] != '=' && p[k + 1] != ',';
        assert(is_pair == pair_at(p@, from as int));
        if is_pair {
            let e = run_end_exec(p, k + 1);
            let ghost pair = (p@.subrange(from as int, k as int), p@.subrange(k + 1, e as int));
            assert(pairs_from(p@, from as int) == seq![pair] + pairs_from(p@, e as int));
            assert(pairs_from(p@, 0)[done.len() as int] == pair) by {
                assert((done + (seq![pair] + pairs_from(p@, e as int)))[done.len() as int] == pair);
            }
            let key = trimmed(p, from, k);
            let value = trimmed(p, k + 1, e);
            let v = string_of(value.as_slice(), 0, value.len());
            assert(value@.subrange(0, value@.len() as int) =~= value@);
            if eq_lit(key.as_slice(), "name") {
                name = Some(v);
            } else if eq_lit(key.as_slice(), "volume") {
                volume = Some(v);
            } else {
                return Err(ParseActionError::InvalidPlaySoundParameter(string_of(p, from, k)));
            }
            proof {
                assert(done + seq![pair] + pairs_from(p@, e as int) =~= done + (seq![pair] + pairs_from(
                    p@,
                    e as int,
                )));
                done = done.push(pair);
            }
            from = e;
        } else {
            from += 1;
        }
    }
    assert(pairs_from(p@, from as int) == Seq::<(Seq<char>, Seq<char>)>::empty());
    assert(done + Seq::<(Seq<char>, Seq<char>)>::empty() =~= done);
    Ok(Action::PlaySound(PlaySoundCommand { name, volume }))
}

pub proof fn lemma_actions_view_concat(a: Seq<Action>, b: Seq<Action>)
    ensures
        actions_view(a + b) == actions_view(a) + actions_view(b),
    decreases b.len(),
{
    if b.len() == 0 {
        assert(a + b =~= a);
        assert(actions_view(a) + actions_view(b) =~= actions_view(a));
    } else {
        let c = a + b;
        assert(c.subrange(0, c.len() - 1) =~= a + b.subrange(0, b.len() - 1));
        lemma_actions_view_concat(a, b.subrange(0, b.len() - 1));
        assert(actions_view(a) + actions_view(b) =~= actions_view(a) + actions_view(b.subrange(0, b.len() - 1)).push(action_view(b[b.len() - 1])));
    }
}

fn menu_parts_exec(m: &[char]) -> (r: Option<(Option<(usize, usize)>, usize)>)
    ensures
        match r {
            Some((intro, start)) => {
                &&& start <= m@.len()
                &&& menu_parts(m@) == Some(
                    (
                        match intro {
                            Some((x, y)) => Some(m@.subrange(x as int, y as int)),
                            None => None,
                        },
                        m@.skip(start as int),
                    ),
                )
                &&& (intro matches Some((x, y)) ==> x <= y <= m@.len())
            },
            None => menu_parts(m@) is None,
        },
{
    let n = m.len();
    if starts_lit(m, "intro=", 0) && n >= 1 {
        let mut i = n - 1;
        while i >= 7
            invariant
                i < n == m@.len(),
                occurs_at(m@, "intro="@, 0),
                menu_intro_end(m@, n - 1) == menu_intro_end(m@, i as int),
            decreases i,
        {
            if m[i] == ',' && no_lf_exec(m, 6, i) {
                let w = crate::text::leading_ws(m, i + 1, n);
                let j = i + 1 + w;
                assert(m@.skip(i + 1) =~= m@.subrange(i + 1, n as int));
                assert(w == leading_ws_count(m@.skip(i + 1)));
                if starts_lit(m, "actions=[", j) && j < n && n - j > 9 && no_lf_exec(m, j + 9, n) {
                    assert(m@.skip(j + 9) =~= m@.subrange(j + 9, n as int));
                    assert(menu_intro_end(m@, i as int) == Some(i as int));
                    assert(menu_intro_end(m@, m@.len() - 1) == Some(i as int));
                    assert(occurs_at(m@, "intro="@, 0));
                    assert(j == i + 1 + leading_ws_count(m@.skip(i + 1)));
                    assert(menu_parts(m@) == Some((Some(m@.subrange(6, i as int)), m@.skip(j + 9))));
                    return Some((Some((6, i)), j + 9));
                }
                proof {
                    if occurs_at(m@, "actions=["@, j as int) && m@.len() > j + 9 {
                        assert(m@.skip(j + 9) =~= m@.subrange(j + 9, n as int));
                    }
                }
            }
            i -= 1;
        }
    }
    proof {
        if occurs_at(m@, "actions=["@, 0) && n > 9 {
            assert(m@.skip(9) =~= m@.subrange(9, n as int));
        }
    }
    if starts_lit(m, "actions=[", 0) && n > 9 && no_lf_exec(m, 9, n) {
        assert(m@.skip(9) =~= m@.subrange(9, n as int));
        return Some((None, 9));
    }
    None
}

fn parse_items_exec(a: &[char]) -> (r: Result<Vec<Action>, ParseActionError>)
    ensures
        match r {
            Ok(v) => spec_parse_items(a@) == Ok::<Seq<ActionView>, ParseActionErrorView>(actions_view(v@)),
            Err(e) => spec_parse_items(a@) == Err::<Seq<ActionView>, ParseActionErrorView>(error_view(e)),
        },
    decreases a@.len(), 1nat,
{
    if a.len() == 0 {
        let v: Vec<Action> = Vec::new();
        assert(actions_view(v@) =~= Seq::<ActionView>::empty());
        return Ok(v);
    }
    proof {
        lemma_first_char_from(a@, ',', 0);
    }
    let k = match find_char_from(a, ',', 0) {
        Some(k) => k,
        None => a.len(),
    };
    let piece = trimmed(a, 0, k);
    let rest = if k < a.len() {
        sub_vec(a, k + 1, a.len())
    } else {
        Vec::new()
    };
    proof {
        lemma_trim_len(a@.subrange(0, k as int));
        if k < a.len() {
            assert(rest@ =~= a@.skip(k + 1));
        }
    }
    if piece.len() == 0 {
        return parse_items_exec(rest.as_slice());
    }
    match parse_chars(piece.as_slice()) {
        Err(e) => Err(e),
        Ok(x) => match parse_items_exec(rest.as_slice()) {
            Err(e) => Err(e),
            Ok(xs) => {
                let ghost old_xs = xs@;
                let mut xs = xs;
                xs.insert(0, x);
                proof {
                    assert(xs@ =~= seq![x] + old_xs);
                    lemma_actions_view_concat(seq![x], old_xs);
                    assert(seq![x].subrange(0, 0) =~= Seq::<Action>::empty());
                    assert(actions_view(Seq::<Action>::empty()) =~= Seq::<ActionView>::empty());
                    assert(actions_view(seq![x]) =~= seq![x@]);
                }
                Ok(xs)
            },
        },
    }
}

fn is_backtrace_level_exec(l: &[char]) -> (r: bool)
    ensures
        r == is_backtrace_level(l@),
{
    eq_lit(l, "0") || eq_lit(l, "1") || eq_lit(l, "2") || eq_lit(l, "full")
}

fn parse_chars(c: &[char]) -> (r: Result<Action, ParseActionError>)
    ensures
        match r {
            Ok(a) => spec_parse_action(c@) == Ok::<ActionView, ParseActionErrorView>(a@),
            Err(e) => spec_parse_action(c@) == Err::<ActionView, ParseActionErrorView>(error_view(e)),
        },
    decreases c@.len(), 0nat,
{
    let n = c.len();
    let ghost s = c@;
    if starts_lit(c, "export:", 0) && n > 7 && no_lf_exec(c, 7, n) {
        assert(s.skip(7) =~= s.subrange(7, n as int));
        return Ok(Action::Export(string_of(c, 7, n)));
    }
    proof {
        if occurs_at(s, "export:"@, 0) && n > 7 {
            assert(s.skip(7) =~= s.subrange(7, n as int));
        }
    }
    if starts_lit(c, "job:", 0) && n > 4 && no_lf_exec(c, 4, n) {
        assert(s.skip(4) =~= s.subrange(4, n as int));
        return Ok(Action::Job(string_of(c, 4, n)));
    }
    proof {
        if occurs_at(s, "job:"@, 0) && n > 4 {
            assert(s.skip(4) =~= s.subrange(4, n as int));
        }
    }
    let internal_len = lit_len("internal:");
    let tv = if starts_lit(c, "internal:", 0) {
        sub_vec(c, internal_len, n)
    } else {
        sub_vec(c, 0, n)
    };
    let t = tv.as_slice();
    proof {
        reveal_strlit("internal:");
        assert(s.skip(9) =~= s.subrange(9, n as int));
        assert(s =~= s.subrange(0, n as int));
        assert(t@ == strip_internal(s));
    }
    if let Some(a) = plain_action_exec(t) {
        return Ok(a);
    }
    let tn = t.len();
    if starts_lit(t, "open-menu(", 0) && tn >= 12 && starts_lit(t, "])", tn - 2) {
        let m = sub_vec(t, 10, tn - 2);
        if let Some((intro, start)) = menu_parts_exec(m.as_slice()) {
            let items = sub_vec(m.as_slice(), start, m.len());
            proof {
                assert(items@ =~= m@.skip(start as int));
                lemma_menu_parts_shorter(m@);
            }
            let intro_string = match intro {
                Some((x, y)) => Some(string_of(m.as_slice(), x, y)),
                None => None,
            };
            return match parse_items_exec(items.as_slice()) {
                Ok(xs) => Ok(
                    Action::OpenMenu(Box::new(ActionMenuDefinition { intro: intro_string, actions: xs })),
                ),
                Err(e) => Err(e),
            };
        }
    }
    if (n >= 14 && starts_lit(c, "open-jobs-menu", n - 14)) || (n >= 13 && starts_lit(
        c,
        "open-job-menu",
        n - 13,
    )) {
        return Ok(Action::OpenJobsMenu);
    }
    parse_with_arguments(c, t)
}

/// The actions taking arguments between parentheses, and the scroll
/// commands, once the others are ruled out
#[verifier::rlimit(40)]
fn parse_with_arguments(c: &[char], t: &[char]) -> (r: Result<Action, ParseActionError>)
    requires
        t@ == strip_internal(c@),
    ensures
        match r {
            Ok(a) => spec_parse_with_arguments(c@, t@) == Ok::<ActionView, ParseActionErrorView>(a@),
            Err(e) => spec_parse_with_arguments(c@, t@) == Err::<ActionView, ParseActionErrorView>(error_view(e)),
        },
{
    let n = c.len();
    let tn = t.len();
    let ghost s = c@;
    if let Some((a, b)) = paren_arg_exec(t, "toggle-backtrace(") {
        let inner = sub_vec(t, a, b);
        if let Some((x, y)) = backtrace_level_exec(inner.as_slice()) {
            let level = sub_vec(inner.as_slice(), x, y);
            let l = string_of(level.as_slice(), 0, level.len());
            assert(level@.subrange(0, level@.len() as int) =~= level@);
            if is_backtrace_level_exec(level.as_slice()) {
                return Ok(Action::ToggleBacktrace(l));
            } else {
                return Err(ParseActionError::InvalidBacktraceLevel(l));
            }
        }
    }
    if let Some((a, b)) = paren_arg_exec(t, "undismiss-location(") {
        if a < b && no_lf_exec(t, a, b) {
            return Ok(Action::UndismissLocation(string_of(t, a, b)));
        }
    }
    if let Some((a, b)) = paren_arg_exec(t, "undismiss-diag-type(") {
        if a < b && no_lf_exec(t, a, b) {
            return Ok(Action::UndismissDiagType(string_of(t, a, b)));
        }
    }
    if let Some((a, b)) = paren_arg_exec(t, "play-sound(") {
        if no_lf_exec(t, a, b) {
            let props = sub_vec(t, a, b);
            return play_sound_exec(props.as_slice());
        }
    }
    if let Some((a, b)) = paren_arg_exec(t, "focus-file(") {
        if no_lf_exec(t, a, b) {
            return Ok(Action::FocusFile(string_of(t, a, b)));
        }
    }
    if let Some((a, b)) = paren_arg_exec(t, "focus_file(") {
        if no_lf_exec(t, a, b) {
            return Ok(Action::FocusFile(string_of(t, a, b)));
        }
    }
    if starts_lit(t, "scroll", 0) && tn > 6 && no_lf_exec(t, 6, tn) {
        assert(t@.skip(6) =~= t@.subrange(6, tn as int));
        assert(t@.subrange(0, tn as int) =~= t@);
        return Ok(Action::Scroll(string_of(t, 0, tn)));
    }
    proof {
        if occurs_at(t@, "scroll"@, 0) && tn > 6 {
            assert(t@.skip(6) =~= t@.subrange(6, tn as int));
        }
    }
    assert(s.subrange(0, n as int) =~= s);
    Err(ParseActionError::UnknownAction(string_of(c, 0, n)))
}

/// The action written `s`, or why it isn't one: an export or a job by its
/// prefix, one of the internal actions by its name (optionally after
/// "internal:"), with its arguments between parentheses where it takes
/// some
pub fn parse_action(s: &str) -> (r: Result<Action, ParseActionError>)
    ensures
        match r {
            Ok(a) => spec_parse_action(s@) == Ok::<ActionView, ParseActionErrorView>(a@),
            Err(e) => spec_parse_action(s@) == Err::<ActionView, ParseActionErrorView>(error_view(e)),
        },
{
    let c = to_chars(s);
    parse_chars(c.as_slice())
}

/// The writing of an action, as read back by [`parse_action`]
pub open spec fn spec_action_string(a: ActionView) -> Seq<char>
    decreases a, 0nat,
{
    match a {
        ActionView::Back => "back"@,
        ActionView::BackOrQuit => "back-or-quit"@,
        ActionView::CopyUnstyledOutput => "copy-unstyled-output"@,
        ActionView::DismissTop => "dismiss-top"@,
        ActionView::DismissTopItem => "dismiss-top-item"@,
        ActionView::DismissTopItemType => "dismiss-top-item-type"@,
        ActionView::Export(name) => "export:"@ + name,
        ActionView::FocusFile(file) => "focus-file("@ + file + ")"@,
        ActionView::FocusGoto => "focus-goto"@,
        ActionView::FocusSearch => "focus-search"@,
        ActionView::Help => "help"@,
        ActionView::Job(job) => "job:"@ + job,
        ActionView::NextMatch => "next-match"@,
        ActionView::NoOp => "no-op"@,
        ActionView::OpenJobsMenu => "open-jobs-menu"@,
        ActionView::OpenMenu(intro, actions) => "open-menu("@ + match intro {
            Some(i) => "intro="@ + i + ","@,
            None => Seq::empty(),
        } + "actions=["@ + join_actions(actions) + "])"@,
        ActionView::OpenUndismissMenu => "open-undismiss-menu"@,
        ActionView::Pause => "pause"@,
        ActionView::PlaySound(name, volume) => "play-sound("@ + match name {
            Some(n) => "name="@ + n + ","@,
            None => Seq::empty(),
        } + match volume {
            Some(v) => "volume="@ + v,
            None => Seq::empty(),
        } + ")"@,
        ActionView::PreviousMatch => "previous-match"@,
        ActionView::Quit => "quit"@,
        ActionView::ReRun => "rerun"@,
        ActionView::Refresh => "refresh"@,
        ActionView::ReloadConfig => "reload-config"@,
        ActionView::ScopeToFailures => "scope-to-failures"@,
        ActionView::Scroll(command) => command,
        ActionView::ToggleBacktrace(level) => "toggle-backtrace("@ + level + ")"@,
        ActionView::TogglePause => "toggle-pause"@,
        ActionView::ToggleRawOutput => "toggle-raw-output"@,
        ActionView::ToggleSummary => "toggle-summary"@,
        ActionView::ToggleWrap => "toggle-wrap"@,
        ActionView::UndismissAll => "undismiss-all"@,
        ActionView::UndismissLocation(location) => "undismiss-location("@ + location + ")"@,
        ActionView::UndismissDiagType(diag_type) => "undismiss-diag-type("@ + diag_type + ")"@,
        ActionView::Unpause => "unpause"@,
        ActionView::Validate => "validate"@,
    }
}

/// The writings of the actions, separated by commas
pub open spec fn join_actions(s: Seq<ActionView>) -> Seq<char>
    decreases s, 1nat,
{
    if s.len() == 0 {
        Seq::empty()
    } else if s.len() == 1 {
        spec_action_string(s[0])
    } else {
        join_actions(s.subrange(0, s.len() - 1)) + ","@ + spec_action_string(s[s.len() - 1])
    }
}

fn push_opt_field(r: &mut String, key: &str, value: &Option<String>, sep: &str)
    ensures
        final(r)@ == old(r)@ + match opt_view(*value) {
            Some(v) => key@ + v + sep@,
            None => Seq::empty(),
        },
{
    match value {
        Some(v) => {
            push_all(r, key);
            push_all(r, v.as_str());
            push_all(r, sep);
        },
        None => {},
    }
}

/// The writing of an action, which [`parse_action`] reads back
pub fn action_string(a: &Action) -> (r: String)
    ensures
        r@ == spec_action_string(a@),
    decreases a,
{
    let mut r = String::new();
    match a {
        Action::Back => push_all(&mut r, "back"),
        Action::BackOrQuit => push_all(&mut r, "back-or-quit"),
        Action::CopyUnstyledOutput => push_all(&mut r, "copy-unstyled-output"),
        Action::DismissTop => push_all(&mut r, "dismiss-top"),
        Action::DismissTopItem => push_all(&mut r, "dismiss-top-item"),
        Action::DismissTopItemType => push_all(&mut r, "dismiss-top-item-type"),
        Action::Export(name) => {
            push_all(&mut r, "export:");
            push_all(&mut r, name.as_str());
        },
        Action::FocusFile(file) => {
            push_all(&mut r, "focus-file(");
            push_all(&mut r, file.as_str());
            push_all(&mut r, ")");
        },
        Action::FocusGoto => push_all(&mut r, "focus-goto"),
        Action::FocusSearch => push_all(&mut r, "focus-search"),
        Action::Help => push_all(&mut r, "help"),
        Action::Job(job) => {
            push_all(&mut r, "job:");
            push_all(&mut r, job.as_str());
        },
        Action::NextMatch => push_all(&mut r, "next-match"),
        Action::NoOp => push_all(&mut r, "no-op"),
        Action::OpenJobsMenu => push_all(&mut r, "open-jobs-menu"),
        Action::OpenMenu(m) => {
            push_all(&mut r, "open-menu(");
            push_opt_field(&mut r, "intro=", &m.intro, ",");
            push_all(&mut r, "actions=[");
            let ghost before = r@;
            let ghost av = actions_view(m.actions@);
            proof {
                lemma_actions_view_len(m.actions@);
            }
            let mut i: usize = 0;
            while i < m.actions.len()
                invariant
                    i <= m.actions@.len(),
                    av == actions_view(m.actions@),
                    av.len() == m.actions@.len(),
                    *a is OpenMenu && a->OpenMenu_0 == *m,
                    r@ == before + join_actions(av.subrange(0, i as int)),
                decreases m.actions@.len() - i,
            {
                proof {
                    lemma_actions_view_index(m.actions@, i as int);
                    assert(av.subrange(0, i + 1).subrange(0, i as int) =~= av.subrange(0, i as int));
                }
                let ghost prev = r@;
                if i > 0 {
                    push_all(&mut r, ",");
                }
                proof {
                    assert(decreases_to!(*a => m.actions@[i as int]));
                }
                let x = action_string(&m.actions[i]);
                push_all(&mut r, x.as_str());
                proof {
                    if i == 0 {
                        assert(av.subrange(0, 0) =~= Seq::<ActionView>::empty());
                        assert(r@ =~= before + join_actions(av.subrange(0, 1)));
                    } else {
                        assert(r@ =~= before + join_actions(av.subrange(0, i + 1)));
                    }
                }
                i += 1;
            }
            assert(av.subrange(0, i as int) =~= av);
            push_all(&mut r, "])");
        },
        Action::OpenUndismissMenu => push_all(&mut r, "open-undismiss-menu"),
        Action::Pause => push_all(&mut r, "pause"),
        Action::PlaySound(p) => {
            push_all(&mut r, "play-sound(");
            push_opt_field(&mut r, "name=", &p.name, ",");
            match &p.volume {
                Some(v) => {
                    push_all(&mut r, "volume=");
                    push_all(&mut r, v.as_str());
                },
                None => {},
            }
            push_all(&mut r, ")");
        },
        Action::PreviousMatch => push_all(&mut r, "previous-match"),
        Action::Quit => push_all(&mut r, "quit"),
        Action::ReRun => push_all(&mut r, "rerun"),
        Action::Refresh => push_all(&mut r, "refresh"),
        Action::ReloadConfig => push_all(&mut r, "reload-config"),
        Action::ScopeToFailures => push_all(&mut r, "scope-to-failures"),
        Action::Scroll(command) => push_all(&mut r, command.as_str()),
        Action::ToggleBacktrace(level) => {
            push_all(&mut r, "toggle-backtrace(");
            push_all(&mut r, level.as_str());
            push_all(&mut r, ")");
        },
        Action::TogglePause => push_all(&mut r, "toggle-pause"),
        Action::ToggleRawOutput => push_all(&mut r, "toggle-raw-output"),
        Action::ToggleSummary => push_all(&mut r, "toggle-summary"),
        Action::ToggleWrap => push_all(&mut r, "toggle-wrap"),
        Action::UndismissAll => push_all(&mut r, "undismiss-all"),
        Action::UndismissLocation(location) => {
            push_all(&mut r, "undismiss-location(");
            push_all(&mut r, location.as_str());
            push_all(&mut r, ")");
        },
        Action::UndismissDiagType(diag_type) => {
            push_all(&mut r, "undismiss-diag-type(");
            push_all(&mut r, diag_type.as_str());
            push_all(&mut r, ")");
        },
        Action::Unpause => push_all(&mut r, "unpause"),
        Action::Validate => push_all(&mut r, "validate"),
    }
    r
}

pub proof fn lemma_actions_view_len(s: Seq<Action>)
    ensures
        actions_view(s).len() == s.len(),
    decreases s.len(),
{
    if s.len() > 0 {
        lemma_actions_view_len(s.subrange(0, s.len() - 1));
    }
}

pub proof fn lemma_actions_view_index(s: Seq<Action>, i: int)
    requires
        0 <= i < s.len(),
    ensures
        actions_view(s).len() == s.len(),
        actions_view(s)[i] == action_view(s[i]),
    decreases s.len(),
{
    lemma_actions_view_len(s);
    lemma_actions_view_len(s.subrange(0, s.len() - 1));
    if i < s.len() - 1 {
        lemma_actions_view_index(s.subrange(0, s.len() - 1), i);
    }
}

/// The literals of the writing of actions, with their characters
pub proof fn lemma_action_literals()
    ensures
        "back"@ =~= seq!['b', 'a', 'c', 'k'],
        "back-or-quit"@ =~= seq!['b', 'a', 'c', 'k', '-', 'o', 'r', '-', 'q', 'u', 'i', 't'],
        "dismiss-top"@ =~= seq!['d', 'i', 's', 'm', 'i', 's', 's', '-', 't', 'o', 'p'],
        "dismiss-top-item"@ =~= seq!['d', 'i', 's', 'm', 'i', 's', 's', '-', 't', 'o', 'p', '-', 'i', 't', 'e', 'm'],
        "dismiss-top-item-type"@ =~= seq!['d', 'i', 's', 'm', 'i', 's', 's', '-', 't', 'o', 'p', '-', 'i', 't', 'e', 'm', '-', 't', 'y', 'p', 'e'],
        "help"@ =~= seq!['h', 'e', 'l', 'p'],
        "quit"@ =~= seq!['q', 'u', 'i', 't'],
        "refresh"@ =~= seq!['r', 'e', 'f', 'r', 'e', 's', 'h'],
        "reload-config"@ =~= seq!['r', 'e', 'l', 'o', 'a', 'd', '-', 'c', 'o', 'n', 'f', 'i', 'g'],
        "rerun"@ =~= seq!['r', 'e', 'r', 'u', 'n'],
        "scope-to-failures"@ =~= seq!['s', 'c', 'o', 'p', 'e', '-', 't', 'o', '-', 'f', 'a', 'i', 'l', 'u', 'r', 'e', 's'],
        "toggle-raw-output"@ =~= seq!['t', 'o', 'g', 'g', 'l', 'e', '-', 'r', 'a', 'w', '-', 'o', 'u', 't', 'p', 'u', 't'],
        "toggle-backtrace"@ =~= seq!['t', 'o', 'g', 'g', 'l', 'e', '-', 'b', 'a', 'c', 'k', 't', 'r', 'a', 'c', 'e'],
        "toggle-summary"@ =~= seq!['t', 'o', 'g', 'g', 'l', 'e', '-', 's', 'u', 'm', 'm', 'a', 'r', 'y'],
        "toggle-wrap"@ =~= seq!['t', 'o', 'g', 'g', 'l', 'e', '-', 'w', 'r', 'a', 'p'],
        "noop"@ =~= seq!['n', 'o', 'o', 'p'],
        "no-op"@ =~= seq!['n', 'o', '-', 'o', 'p'],
        "no-operation"@ =~= seq!['n', 'o', '-', 'o', 'p', 'e', 'r', 'a', 't', 'i', 'o', 'n'],
        "pause"@ =~= seq!['p', 'a', 'u', 's', 'e'],
        "unpause"@ =~= seq!['u', 'n', 'p', 'a', 'u', 's', 'e'],
        "toggle-pause"@ =~= seq!['t', 'o', 'g', 'g', 'l', 'e', '-', 'p', 'a', 'u', 's', 'e'],
        "focus-search"@ =~= seq!['f', 'o', 'c', 'u', 's', '-', 's', 'e', 'a', 'r', 'c', 'h'],
        "focus-goto"@ =~= seq!['f', 'o', 'c', 'u', 's', '-', 'g', 'o', 't', 'o'],
        "validate"@ =~= seq!['v', 'a', 'l', 'i', 'd', 'a', 't', 'e'],
        "next-match"@ =~= seq!['n', 'e', 'x', 't', '-', 'm', 'a', 't', 'c', 'h'],
        "previous-match"@ =~= seq!['p', 'r', 'e', 'v', 'i', 'o', 'u', 's', '-', 'm', 'a', 't', 'c', 'h'],
        "undismiss-all"@ =~= seq!['u', 'n', 'd', 'i', 's', 'm', 'i', 's', 's', '-', 'a', 'l', 'l'],
        "open-undismiss-menu"@ =~= seq!['o', 'p', 'e', 'n', '-', 'u', 'n', 'd', 'i', 's', 'm', 'i', 's', 's', '-', 'm', 'e', 'n', 'u'],
        "copy-unstyled-output"@ =~= seq!['c', 'o', 'p', 'y', '-', 'u', 'n', 's', 't', 'y', 'l', 'e', 'd', '-', 'o', 'u', 't', 'p', 'u', 't'],
        "play-sound"@ =~= seq!['p', 'l', 'a', 'y', '-', 's', 'o', 'u', 'n', 'd'],
        "export:"@ =~= seq!['e', 'x', 'p', 'o', 'r', 't', ':'],
        "job:"@ =~= seq!['j', 'o', 'b', ':'],
        "internal:"@ =~= seq!['i', 'n', 't', 'e', 'r', 'n', 'a', 'l', ':'],
        "open-menu("@ =~= seq!['o', 'p', 'e', 'n', '-', 'm', 'e', 'n', 'u', '('],
        "])"@ =~= seq![']', ')'],
        "open-jobs-menu"@ =~= seq!['o', 'p', 'e', 'n', '-', 'j', 'o', 'b', 's', '-', 'm', 'e', 'n', 'u'],
        "open-job-menu"@ =~= seq!['o', 'p', 'e', 'n', '-', 'j', 'o', 'b', '-', 'm', 'e', 'n', 'u'],
        "toggle-backtrace("@ =~= seq!['t', 'o', 'g', 'g', 'l', 'e', '-', 'b', 'a', 'c', 'k', 't', 'r', 'a', 'c', 'e', '('],
        "undismiss-location("@ =~= seq!['u', 'n', 'd', 'i', 's', 'm', 'i', 's', 's', '-', 'l', 'o', 'c', 'a', 't', 'i', 'o', 'n', '('],
        "undismiss-diag-type("@ =~= seq!['u', 'n', 'd', 'i', 's', 'm', 'i', 's', 's', '-', 'd', 'i', 'a', 'g', '-', 't', 'y', 'p', 'e', '('],
        "play-sound("@ =~= seq!['p', 'l', 'a', 'y', '-', 's', 'o', 'u', 'n', 'd', '('],
        "focus-file("@ =~= seq!['f', 'o', 'c', 'u', 's', '-', 'f', 'i', 'l', 'e', '('],
        "focus_file("@ =~= seq!['f', 'o', 'c', 'u', 's', '_', 'f', 'i', 'l', 'e', '('],
        "scroll"@ =~= seq!['s', 'c', 'r', 'o', 'l', 'l'],
        ")"@ =~= seq![')'],
        "intro="@ =~= seq!['i', 'n', 't', 'r', 'o', '='],
        "actions=["@ =~= seq!['a', 'c', 't', 'i', 'o', 'n', 's', '=', '['],
        ","@ =~= seq![','],
        "name="@ =~= seq!['n', 'a', 'm', 'e', '='],
        "volume="@ =~= seq!['v', 'o', 'l', 'u', 'm', 'e', '='],
        "name"@ =~= seq!['n', 'a', 'm', 'e'],
        "volume"@ =~= seq!['v', 'o', 'l', 'u', 'm', 'e'],
        "0"@ =~= seq!['0'],
        "1"@ =~= seq!['1'],
        "2"@ =~= seq!['2'],
        "full"@ =~= seq!['f', 'u', 'l', 'l'],
{
    reveal_strlit("back");
    reveal_strlit("back-or-quit");
    reveal_strlit("dismiss-top");
    reveal_strlit("dismiss-top-item");
    reveal_strlit("dismiss-top-item-type");
    reveal_strlit("help");
    reveal_strlit("quit");
    reveal_strlit("refresh");
    reveal_strlit("reload-config");
    reveal_strlit("rerun");
    reveal_strlit("scope-to-failures");
    reveal_strlit("toggle-raw-output");
    reveal_strlit("toggle-backtrace");
    reveal_strlit("toggle-summary");
    reveal_strlit("toggle-wrap");
    reveal_strlit("noop");
    reveal_strlit("no-op");
    reveal_strlit("no-operation");
    reveal_strlit("pause");
    reveal_strlit("unpause");
    reveal_strlit("toggle-pause");
    reveal_strlit("focus-search");
    reveal_strlit("focus-goto");
    reveal_strlit("validate");
    reveal_strlit("next-match");
    reveal_strlit("previous-match");
    reveal_strlit("undismiss-all");
    reveal_strlit("open-undismiss-menu");
    reveal_strlit("copy-unstyled-output");
    reveal_strlit("play-sound");
    reveal_strlit("export:");
    reveal_strlit("job:");
    reveal_strlit("internal:");
    reveal_strlit("open-menu(");
    reveal_strlit("])");
    reveal_strlit("open-jobs-menu");
    reveal_strlit("open-job-menu");
    reveal_strlit("toggle-backtrace(");
    reveal_strlit("undismiss-location(");
    reveal_strlit("undismiss-diag-type(");
    reveal_strlit("play-sound(");
    reveal_strlit("focus-file(");
    reveal_strlit("focus_file(");
    reveal_strlit("scroll");
    reveal_strlit(")");
    reveal_strlit("intro=");
    reveal_strlit("actions=[");
    reveal_strlit(",");
    reveal_strlit("name=");
    reveal_strlit("volume=");
    reveal_strlit("name");
    reveal_strlit("volume");
    reveal_strlit("0");
    reveal_strlit("1");
    reveal_strlit("2");
    reveal_strlit("full");
}

/// Actions whose writing is read back as the same action: the strings of
/// the actions hold no line feed, and the ones written alone are neither
/// empty nor cut by what surrounds them
pub open spec fn well_written(a: ActionView) -> bool
    decreases a, 0nat,
{
    match a {
        ActionView::Export(x) => x.len() > 0 && no_lf(x),
        ActionView::Job(x) => x.len() > 0 && no_lf(x),
        ActionView::FocusFile(x) => no_lf(x),
        ActionView::ToggleBacktrace(l) => is_backtrace_level(l),
        ActionView::UndismissLocation(x) => x.len() > 0 && no_lf(x),
        ActionView::UndismissDiagType(x) => x.len() > 0 && no_lf(x),
        ActionView::Scroll(c) => occurs_at(c, "scroll"@, 0) && c.len() > 6 && no_lf(c) && !(c.len()
            >= 14 && occurs_at(c, "open-jobs-menu"@, c.len() - 14)) && !(c.len() >= 13 && occurs_at(
            c,
            "open-job-menu"@,
            c.len() - 13,
        )),
        ActionView::PlaySound(name, volume) => sound_field_ok(name) && sound_field_ok(volume),
        ActionView::OpenMenu(intro, actions) => (match intro {
            Some(i) => i.len() > 0 && no_lf(i),
            None => true,
        }) && actions.len() > 0 && all_well_written(actions),
        _ => true,
    }
}

/// Each action is well written, and its writing can stand in a menu: it
/// holds no comma and no white space around
pub open spec fn all_well_written(s: Seq<ActionView>) -> bool
    decreases s, 1nat,
{
    if s.len() == 0 {
        true
    } else {
        all_well_written(s.subrange(0, s.len() - 1)) && well_written(s[s.len() - 1]) && menu_item_ok(
            spec_action_string(s[s.len() - 1]),
        )
    }
}

pub open spec fn menu_item_ok(x: Seq<char>) -> bool {
    &&& x.len() > 0
    &&& trim(x) == x
    &&& forall|i: int| 0 <= i < x.len() ==> #[trigger] x[i] != ','
}

/// A field of a sound to play which reads back from its writing: not
/// empty, without line feed, `=` or `,`, and without white space around
pub open spec fn sound_field_ok(f: Option<Seq<char>>) -> bool {
    match f {
        Some(x) => x.len() > 0 && no_lf(x) && trim(x) == x && forall|i: int|
            0 <= i < x.len() ==> #[trigger] x[i] != '=' && x[i] != ',',
        None => true,
    }
}

pub proof fn lemma_run_end(p: Seq<char>, i: int, j: int)
    requires
        0 <= i <= j <= p.len(),
        forall|k: int| i <= k < j ==> #[trigger] p[k] != '=' && p[k] != ',',
        j == p.len() || p[j] == '=' || p[j] == ',',
    ensures
        run_end(p, i) == j,
    decreases j - i,
{
    if i < j {
        lemma_run_end(p, i + 1, j);
    }
}

/// The pairs of "key=x," then what follows, `x` being free of `=` and `,`
proof fn lemma_pairs_field(p: Seq<char>, from: int, key: Seq<char>, x: Seq<char>)
    requires
        0 <= from,
        from + key.len() + 1 + x.len() <= p.len(),
        key.len() > 0,
        x.len() > 0,
        p.subrange(from, from + key.len()) == key,
        p[from + key.len()] == '=',
        p.subrange(from + key.len() + 1, from + key.len() + 1 + x.len()) == x,
        forall|i: int| 0 <= i < key.len() ==> #[trigger] key[i] != '=' && key[i] != ',',
        forall|i: int| 0 <= i < x.len() ==> #[trigger] x[i] != '=' && x[i] != ',',
        from + key.len() + 1 + x.len() == p.len() || p[from + key.len() + 1 + x.len()] == ',',
    ensures
        pairs_from(p, from) == seq![(key, x)] + pairs_from(p, from + key.len() + 1 + x.len()),
{
    let k = from + key.len();
    let e = k + 1 + x.len();
    assert forall|i: int| from <= i < k implies #[trigger] p[i] != '=' && p[i] != ',' by {
        assert(p[i] == key[i - from]);
    }
    lemma_run_end(p, from, k);
    assert forall|i: int| k + 1 <= i < e implies #[trigger] p[i] != '=' && p[i] != ',' by {
        assert(p[i] == x[i - k - 1]);
    }
    lemma_run_end(p, k + 1, e);
    assert(p[k + 1] == x[0]);
}

/// After a comma, the pairs are those after it
proof fn lemma_pairs_comma(p: Seq<char>, from: int)
    requires
        0 <= from < p.len(),
        p[from] == ',',
    ensures
        pairs_from(p, from) == pairs_from(p, from + 1),
{
    lemma_run_end(p, from, from);
}

/// What stands between the parentheses of the writing of a sound to play
pub open spec fn sound_props(name: Option<Seq<char>>, volume: Option<Seq<char>>) -> Seq<char> {
    let np = match name {
        Some(n) => "name="@ + n + ","@,
        None => Seq::<char>::empty(),
    };
    let vp = match volume {
        Some(v) => "volume="@ + v,
        None => Seq::<char>::empty(),
    };
    np + vp
}

#[verifier::rlimit(30)]
proof fn lemma_sound_props(name: Option<Seq<char>>, volume: Option<Seq<char>>)
    requires
        sound_field_ok(name),
        sound_field_ok(volume),
    ensures
        no_lf(sound_props(name, volume)),
        play_sound_of(pairs_from(sound_props(name, volume), 0), 0, None, None) == Ok::<
            ActionView,
            ParseActionErrorView,
        >(ActionView::PlaySound(name, volume)),
{
    lemma_action_literals();
    let np = match name {
        Some(n) => "name="@ + n + ","@,
        None => Seq::<char>::empty(),
    };
    let vp = match volume {
        Some(v) => "volume="@ + v,
        None => Seq::<char>::empty(),
    };
    let props = sound_props(name, volume);
    assert(props =~= np + vp);
    assert(no_lf(props)) by {
        assert forall|i: int| 0 <= i < props.len() implies #[trigger] is_any(props[i]) by {
            if i < np.len() {
                if let Some(n) = name {
                    if 5 <= i < 5 + n.len() {
                        assert(props[i] == n[i - 5]);
                    }
                }
            } else {
                if let Some(v) = volume {
                    if i - np.len() >= 7 {
                        assert(props[i] == v[i - np.len() - 7]);
                    }
                }
            }
        }
    }
    let empty = Seq::<(Seq<char>, Seq<char>)>::empty();
    let after_name = np.len();
    match name {
        Some(n) => {
            assert(props.subrange(0, 4) =~= "name"@);
            assert(props[4] == '=');
            assert(props.subrange(5, 5 + n.len() as int) =~= n);
            lemma_pairs_field(props, 0, "name"@, n);
            assert(props[n.len() + 5int] == ',');
            lemma_pairs_comma(props, n.len() + 5int);
        },
        None => {},
    }
    match volume {
        Some(v) => {
            let f = after_name as int;
            assert(props.subrange(f, f + 6) =~= "volume"@);
            assert(props[f + 6] == '=');
            assert(props.subrange(f + 7, f + 7 + v.len() as int) =~= v);
            assert(props.len() == f + 7 + v.len());
            lemma_pairs_field(props, f, "volume"@, v);
            assert(pairs_from(props, props.len() as int) == empty);
        },
        None => {
            assert(pairs_from(props, after_name as int) == empty);
        },
    }
    match (name, volume) {
        (Some(n), Some(v)) => {
            assert(pairs_from(props, 0) =~= seq![("name"@, n), ("volume"@, v)]);
        },
        (Some(n), None) => {
            assert(pairs_from(props, 0) =~= seq![("name"@, n)]);
        },
        (None, Some(v)) => {
            assert(pairs_from(props, 0) =~= seq![("volume"@, v)]);
        },
        (None, None) => {
            assert(pairs_from(props, 0) =~= empty);
        },
    }
    reveal_with_fuel(play_sound_of, 3);
}

#[verifier::rlimit(30)]
proof fn lemma_round_trip_playsound(a: ActionView)
    requires
        well_written(a),
        a is PlaySound,
    ensures
        spec_parse_action(spec_action_string(a)) == Ok::<ActionView, ParseActionErrorView>(a),
{
    lemma_action_literals();
    let s = spec_action_string(a);
    let name = a->PlaySound_0;
    let volume = a->PlaySound_1;
    let props = sound_props(name, volume);
    lemma_sound_props(name, volume);
    assert(s =~= "play-sound("@ + props + ")"@);
    assert(s[0] == 'p');
    assert(s.last() == ')');
    assert(strip_internal(s) == s);
    assert(s.subrange(0, 11) =~= "play-sound("@);
    assert(s.subrange(11, s.len() - 1) =~= props);
    assert(!occurs_at(s, "export:"@, 0));
    assert(!occurs_at(s, "job:"@, 0));
    assert(plain_action(s) is None) by {
        assert(s[10] == '(');
    }
    assert(menu_inner(s) is None);
    assert(paren_arg(s, "toggle-backtrace("@) is None);
    assert(paren_arg(s, "undismiss-location("@) is None);
    assert(paren_arg(s, "undismiss-diag-type("@) is None);
    assert(paren_arg(s, "play-sound("@) == Some(props));
}

/// An action well written reads back from its writing
#[verifier::rlimit(50)]
pub proof fn lemma_action_round_trip(a: ActionView)
    requires
        well_written(a),
    ensures
        spec_parse_action(spec_action_string(a)) == Ok::<ActionView, ParseActionErrorView>(a),
    decreases a, 2nat,
{
    lemma_action_literals();
    let s = spec_action_string(a);
    match a {
        ActionView::Back => {
            assert(spec_parse_action(s) == Ok::<ActionView, ParseActionErrorView>(a));
        },
        ActionView::BackOrQuit => {
            assert(spec_parse_action(s) == Ok::<ActionView, ParseActionErrorView>(a));
        },
        ActionView::CopyUnstyledOutput => {
            assert(spec_parse_action(s) == Ok::<ActionView, ParseActionErrorView>(a));
        },
        ActionView::DismissTop => {
            assert(spec_parse_action(s) == Ok::<ActionView, ParseActionErrorView>(a));
        },
        ActionView::DismissTopItem => {
            assert(spec_parse_action(s) == Ok::<ActionView, ParseActionErrorView>(a));
        },
        ActionView::DismissTopItemType => {
            assert(spec_parse_action(s) == Ok::<ActionView, ParseActionErrorView>(a));
        },
        ActionView::Export(_) => {
            lemma_round_trip_export(a);
        },
        ActionView::FocusFile(_) => {
            lemma_round_trip_focusfile(a);
        },
        ActionView::FocusGoto => {
            assert(spec_parse_action(s) == Ok::<ActionView, ParseActionErrorView>(a));
        },
        ActionView::FocusSearch => {
            assert(spec_parse_action(s) == Ok::<ActionView, ParseActionErrorView>(a));
        },
        ActionView::Help => {
            assert(spec_parse_action(s) == Ok::<ActionView, ParseActionErrorView>(a));
        },
        ActionView::Job(_) => {
            lemma_round_trip_job(a);
        },
        ActionView::NextMatch => {
            assert(spec_parse_action(s) == Ok::<ActionView, ParseActionErrorView>(a));
        },
        ActionView::NoOp => {
            assert(spec_parse_action(s) == Ok::<ActionView, ParseActionErrorView>(a));
        },
        ActionView::OpenJobsMenu => {
            lemma_round_trip_openjobsmenu(a);
        },
        ActionView::OpenMenu(_, _) => {
            lemma_round_trip_openmenu(a);
        },
        ActionView::OpenUndismissMenu => {
            assert(spec_parse_action(s) == Ok::<ActionView, ParseActionErrorView>(a));
        },
        ActionView::Pause => {
            assert(spec_parse_action(s) == Ok::<ActionView, ParseActionErrorView>(a));
        },
        ActionView::PlaySound(_, _) => {
            lemma_round_trip_playsound(a);
        },
        ActionView::PreviousMatch => {
            assert(spec_parse_action(s) == Ok::<ActionView, ParseActionErrorView>(a));
        },
        ActionView::Quit => {
            assert(spec_parse_action(s) == Ok::<ActionView, ParseActionErrorView>(a));
        },
        ActionView::ReRun => {
            assert(spec_parse_action(s) == Ok::<ActionView, ParseActionErrorView>(a));
        },
        ActionView::Refresh => {
            assert(spec_parse_action(s) == Ok::<ActionView, ParseActionErrorView>(a));
        },
        ActionView::ReloadConfig => {
            assert(spec_parse_action(s) == Ok::<ActionView, ParseActionErrorView>(a));
        },
        ActionView::ScopeToFailures => {
            assert(spec_parse_action(s) == Ok::<ActionView, ParseActionErrorView>(a));
        },
        ActionView::Scroll(_) => {
            assert(spec_parse_action(s) == Ok::<ActionView, ParseActionErrorView>(a));
        },
        ActionView::ToggleBacktrace(_) => {
            lemma_round_trip_togglebacktrace(a);
        },
        ActionView::TogglePause => {
            assert(spec_parse_action(s) == Ok::<ActionView, ParseActionErrorView>(a));
        },
        ActionView::ToggleRawOutput => {
            assert(spec_parse_action(s) == Ok::<ActionView, ParseActionErrorView>(a));
        },
        ActionView::ToggleSummary => {
            assert(spec_parse_action(s) == Ok::<ActionView, ParseActionErrorView>(a));
        },
        ActionView::ToggleWrap => {
            assert(spec_parse_action(s) == Ok::<ActionView, ParseActionErrorView>(a));
        },
        ActionView::UndismissAll => {
            assert(spec_parse_action(s) == Ok::<ActionView, ParseActionErrorView>(a));
        },
        ActionView::UndismissLocation(_) => {
            lemma_round_trip_undismisslocation(a);
        },
        ActionView::UndismissDiagType(_) => {
            lemma_round_trip_undismissdiagtype(a);
        },
        ActionView::Unpause => {
            assert(spec_parse_action(s) == Ok::<ActionView, ParseActionErrorView>(a));
        },
        ActionView::Validate => {
            assert(spec_parse_action(s) == Ok::<ActionView, ParseActionErrorView>(a));
        },
    }
}

proof fn lemma_round_trip_export(a: ActionView)
    requires
        well_written(a),
        a is Export,
    ensures
        spec_parse_action(spec_action_string(a)) == Ok::<ActionView, ParseActionErrorView>(a),
{
    lemma_action_literals();
    let s = spec_action_string(a);
    let x = a->Export_0;
    assert(s.subrange(0, 7) =~= "export:"@);
    assert(s.skip(7) =~= x);
    assert(spec_parse_action(s) == Ok::<ActionView, ParseActionErrorView>(a));
}

proof fn lemma_round_trip_openjobsmenu(a: ActionView)
    requires
        well_written(a),
        a is OpenJobsMenu,
    ensures
        spec_parse_action(spec_action_string(a)) == Ok::<ActionView, ParseActionErrorView>(a),
{
    lemma_action_literals();
    let s = spec_action_string(a);
    assert(s.subrange(0, 14) =~= s);
    assert(s[5] != "open-menu("@[5]);
    assert(!occurs_at(s, "open-menu("@, 0));
    assert(plain_action(s) is None);
    assert(spec_parse_action(s) == Ok::<ActionView, ParseActionErrorView>(a));
}

proof fn lemma_round_trip_focusfile(a: ActionView)
    requires
        well_written(a),
        a is FocusFile,
    ensures
        spec_parse_action(spec_action_string(a)) == Ok::<ActionView, ParseActionErrorView>(a),
{
    lemma_action_literals();
    let s = spec_action_string(a);
    let x = a->FocusFile_0;
    assert(s[0] == 'f');
    assert(s.last() == ')');
    assert(strip_internal(s) == s);
    assert(s.subrange(0, 11) =~= "focus-file("@);
    assert(s.subrange(11, s.len() - 1) =~= x);
    assert(plain_action(s) is None) by {
        assert(s[6] == 'f');
        assert(s[5] == '-');
    }
    assert(!occurs_at(s, "export:"@, 0));
    assert(!occurs_at(s, "job:"@, 0));
    assert(menu_inner(s) is None);
    assert(paren_arg(s, "toggle-backtrace("@) is None);
    assert(paren_arg(s, "undismiss-location("@) is None);
    assert(paren_arg(s, "undismiss-diag-type("@) is None);
    assert(paren_arg(s, "play-sound("@) is None);
    assert(paren_arg(s, "focus-file("@) == Some(x));
    assert(spec_parse_action(s) == Ok::<ActionView, ParseActionErrorView>(a));
}

proof fn lemma_round_trip_job(a: ActionView)
    requires
        well_written(a),
        a is Job,
    ensures
        spec_parse_action(spec_action_string(a)) == Ok::<ActionView, ParseActionErrorView>(a),
{
    lemma_action_literals();
    let s = spec_action_string(a);
    let x = a->Job_0;
    assert(s.subrange(0, 4) =~= "job:"@);
    assert(s.skip(4) =~= x);
    assert(spec_parse_action(s) == Ok::<ActionView, ParseActionErrorView>(a));
}

proof fn lemma_round_trip_togglebacktrace(a: ActionView)
    requires
        well_written(a),
        a is ToggleBacktrace,
    ensures
        spec_parse_action(spec_action_string(a)) == Ok::<ActionView, ParseActionErrorView>(a),
{
    lemma_action_literals();
    let s = spec_action_string(a);
    let x = a->ToggleBacktrace_0;
    lemma_first_char_from(x, '\n', 0);
    assert(leading_ws_count(x) == 0) by {
        assert(!is_ws(x[0]));
    }
    assert(line_end(x, 0) == x.len());
    assert(x.skip(x.len() as int) =~= Seq::<char>::empty());
    assert(x.subrange(0, x.len() as int) =~= x);
    assert(backtrace_level(x) == Some(x));
    assert(s[0] == 't');
    assert(s.last() == ')');
    assert(strip_internal(s) == s);
    assert(s.subrange(0, 17) =~= "toggle-backtrace("@);
    assert(s.subrange(17, s.len() - 1) =~= x);
    assert(!occurs_at(s, "export:"@, 0));
    assert(!occurs_at(s, "job:"@, 0));
    assert(plain_action(s) is None) by {
        assert(s[16] == '(');
    }
    assert(menu_inner(s) is None);
    assert(paren_arg(s, "toggle-backtrace("@) == Some(x));
    assert(spec_parse_action(s) == Ok::<ActionView, ParseActionErrorView>(a));
}

proof fn lemma_round_trip_undismisslocation(a: ActionView)
    requires
        well_written(a),
        a is UndismissLocation,
    ensures
        spec_parse_action(spec_action_string(a)) == Ok::<ActionView, ParseActionErrorView>(a),
{
    lemma_action_literals();
    let s = spec_action_string(a);
    let x = a->UndismissLocation_0;
    assert(s[0] == 'u');
    assert(s.last() == ')');
    assert(strip_internal(s) == s);
    assert(s.subrange(0, 19) =~= "undismiss-location("@);
    assert(s.subrange(19, s.len() - 1) =~= x);
    assert(!occurs_at(s, "export:"@, 0));
    assert(!occurs_at(s, "job:"@, 0));
    assert(plain_action(s) is None) by {
        assert(s[18] == '(');
    }
    assert(menu_inner(s) is None);
    assert(paren_arg(s, "undismiss-location("@) == Some(x));
    assert(spec_parse_action(s) == Ok::<ActionView, ParseActionErrorView>(a));
}

proof fn lemma_round_trip_undismissdiagtype(a: ActionView)
    requires
        well_written(a),
        a is UndismissDiagType,
    ensures
        spec_parse_action(spec_action_string(a)) == Ok::<ActionView, ParseActionErrorView>(a),
{
    lemma_action_literals();
    let s = spec_action_string(a);
    let x = a->UndismissDiagType_0;
    assert(s[0] == 'u');
    assert(s.last() == ')');
    assert(strip_internal(s) == s);
    assert(s.subrange(0, 20) =~= "undismiss-diag-type("@);
    assert(s.subrange(20, s.len() - 1) =~= x);
    assert(!occurs_at(s, "export:"@, 0));
    assert(!occurs_at(s, "job:"@, 0));
    assert(plain_action(s) is None) by {
        assert(s[19] == '(');
    }
    assert(menu_inner(s) is None);
    assert(paren_arg(s, "undismiss-diag-type("@) == Some(x));
    assert(spec_parse_action(s) == Ok::<ActionView, ParseActionErrorView>(a));
}

/// The writing of a well written action starts with a letter other than
/// `a`, and holds no line feed
pub proof fn lemma_action_string_start(a: ActionView)
    requires
        well_written(a),
    ensures
        spec_action_string(a).len() > 0,
        spec_action_string(a)[0] != 'a',
        !is_ws(spec_action_string(a)[0]),
{
    lemma_action_literals();
    let s = spec_action_string(a);
    match a {
        ActionView::Scroll(c) => {
            assert(c.subrange(0, 6) =~= "scroll"@);
            assert(c[0] == c.subrange(0, 6)[0]);
        },
        ActionView::OpenMenu(_, _) => {
            assert(s[0] == 'o');
        },
        ActionView::PlaySound(_, _) => {
            assert(s[0] == 'p');
        },
        ActionView::Export(_) => {
            assert(s[0] == 'e');
        },
        ActionView::Job(_) => {
            assert(s[0] == 'j');
        },
        ActionView::FocusFile(_) => {
            assert(s[0] == 'f');
        },
        ActionView::ToggleBacktrace(_) => {
            assert(s[0] == 't');
        },
        ActionView::UndismissLocation(_) => {
            assert(s[0] == 'u');
        },
        ActionView::UndismissDiagType(_) => {
            assert(s[0] == 'u');
        },
        _ => {},
    }
}

/// The writing of a well written action holds no line feed
pub proof fn lemma_action_string_no_lf(a: ActionView)
    requires
        well_written(a),
    ensures
        no_lf(spec_action_string(a)),
    decreases a, 1nat,
{
    lemma_action_literals();
    let s = spec_action_string(a);
    match a {
        ActionView::OpenMenu(intro, actions) => {
            let ip = match intro {
                Some(i) => "intro="@ + i + ","@,
                None => Seq::empty(),
            };
            lemma_join_no_lf(actions);
            let j = join_actions(actions);
            assert(s =~= "open-menu("@ + ip + "actions=["@ + j + "])"@);
            assert forall|k: int| 0 <= k < s.len() implies #[trigger] is_any(s[k]) by {
                if 10 <= k < 10 + ip.len() {
                    if let Some(i) = intro {
                        if 16 <= k < 16 + i.len() {
                            assert(s[k] == i[k - 16]);
                        }
                    }
                } else if 19 + ip.len() <= k < 19 + ip.len() + j.len() {
                    assert(s[k] == j[k - 19 - ip.len()]);
                }
            }
        },
        ActionView::PlaySound(name, volume) => {
            lemma_sound_props(name, volume);
            let p = sound_props(name, volume);
            assert(s =~= "play-sound("@ + p + ")"@);
            assert forall|k: int| 0 <= k < s.len() implies #[trigger] is_any(s[k]) by {
                if 11 <= k < 11 + p.len() {
                    assert(s[k] == p[k - 11]);
                }
            }
        },
        ActionView::Export(x) => {
            assert forall|k: int| 0 <= k < s.len() implies #[trigger] is_any(s[k]) by {
                if k >= 7 { assert(s[k] == x[k - 7]); }
            }
        },
        ActionView::Job(x) => {
            assert forall|k: int| 0 <= k < s.len() implies #[trigger] is_any(s[k]) by {
                if k >= 4 { assert(s[k] == x[k - 4]); }
            }
        },
        ActionView::FocusFile(x) => {
            assert forall|k: int| 0 <= k < s.len() implies #[trigger] is_any(s[k]) by {
                if 11 <= k < 11 + x.len() { assert(s[k] == x[k - 11]); }
            }
        },
        ActionView::ToggleBacktrace(x) => {
            assert forall|k: int| 0 <= k < s.len() implies #[trigger] is_any(s[k]) by {
                if 17 <= k < 17 + x.len() { assert(s[k] == x[k - 17]); }
            }
        },
        ActionView::UndismissLocation(x) => {
            assert forall|k: int| 0 <= k < s.len() implies #[trigger] is_any(s[k]) by {
                if 19 <= k < 19 + x.len() { assert(s[k] == x[k - 19]); }
            }
        },
        ActionView::UndismissDiagType(x) => {
            assert forall|k: int| 0 <= k < s.len() implies #[trigger] is_any(s[k]) by {
                if 20 <= k < 20 + x.len() { assert(s[k] == x[k - 20]); }
            }
        },
        _ => {},
    }
}

pub proof fn lemma_join_no_lf(s: Seq<ActionView>)
    requires
        all_well_written(s),
    ensures
        no_lf(join_actions(s)),
    decreases s, 0nat,
{
    lemma_action_literals();
    if s.len() > 0 {
        let last = s[s.len() - 1];
        lemma_action_string_no_lf(last);
        if s.len() > 1 {
            let init = s.subrange(0, s.len() - 1);
            lemma_join_no_lf(init);
            let a = join_actions(init);
            let b = spec_action_string(last);
            let j = join_actions(s);
            assert(j =~= a + ","@ + b);
            assert forall|k: int| 0 <= k < j.len() implies #[trigger] is_any(j[k]) by {
                if k < a.len() {
                    assert(j[k] == a[k]);
                } else if k > a.len() {
                    assert(j[k] == b[k - a.len() - 1]);
                } else {
                    assert(j[k] == ',');
                }
            }
        }
    }
}

/// The writings of actions, from the first: the first one, then a comma
/// and the writings of the others
pub proof fn lemma_join_front(s: Seq<ActionView>)
    requires
        s.len() > 1,
    ensures
        join_actions(s) == spec_action_string(s[0]) + ","@ + join_actions(s.subrange(1, s.len() as int)),
    decreases s.len(),
{
    let n = s.len();
    lemma_action_literals();
    if n == 2 {
        assert(s.subrange(0, 1)[0] == s[0]);
        assert(s.subrange(1, 2)[0] == s[1]);
        assert(join_actions(s.subrange(0, 1)) == spec_action_string(s[0]));
        assert(join_actions(s.subrange(1, 2)) == spec_action_string(s[1]));
        assert(s.subrange(0, 1) == s.subrange(0, n - 1));
    } else {
        let init = s.subrange(0, n - 1);
        let tail = s.subrange(1, n as int);
        lemma_join_front(init);
        assert(init.subrange(1, n - 1) =~= tail.subrange(0, n - 2));
        assert(tail[n - 2] == s[n - 1]);
        assert(init[0] == s[0]);
        assert(join_actions(tail) == join_actions(tail.subrange(0, n - 2)) + ","@ + spec_action_string(s[n - 1]));
        assert(join_actions(s) == join_actions(init) + ","@ + spec_action_string(s[n - 1]));
        assert(join_actions(s) =~= spec_action_string(s[0]) + ","@ + join_actions(tail));
    }
}

pub proof fn lemma_all_well_written_index(s: Seq<ActionView>, i: int)
    requires
        all_well_written(s),
        0 <= i < s.len(),
    ensures
        well_written(s[i]),
        menu_item_ok(spec_action_string(s[i])),
    decreases s.len(),
{
    if i < s.len() - 1 {
        lemma_all_well_written_index(s.subrange(0, s.len() - 1), i);
    }
}

pub proof fn lemma_all_well_written_tail(s: Seq<ActionView>)
    requires
        all_well_written(s),
        s.len() > 0,
    ensures
        all_well_written(s.subrange(1, s.len() as int)),
    decreases s.len(),
{
    if s.len() > 1 {
        lemma_all_well_written_tail(s.subrange(0, s.len() - 1));
        assert(s.subrange(0, s.len() - 1).subrange(1, s.len() - 1) =~= s.subrange(1, s.len() as int).subrange(0, s.len() - 2));
    } else {
        assert(s.subrange(1, 1).len() == 0);
    }
}

pub proof fn lemma_ws_start_not_trimmed(x: Seq<char>)
    requires
        x.len() > 0,
        trim(x) == x,
    ensures
        !is_ws(x[0]),
{
    if is_ws(x[0]) {
        lemma_trim_start_len(x.drop_first());
        assert(trim_start(x) == trim_start(x.drop_first()));
        lemma_trim_end_len(trim_start(x));
    }
}

/// In the writings of well written actions, each comma is followed by the
/// start of the writing of an action
pub proof fn lemma_join_commas(s: Seq<ActionView>)
    requires
        all_well_written(s),
    ensures
        forall|p: int| 0 <= p < join_actions(s).len() && #[trigger] join_actions(s)[p] == ',' ==> p + 1
            < join_actions(s).len() && join_actions(s)[p + 1] != 'a' && !is_ws(join_actions(s)[p + 1]),
    decreases s.len(),
{
    if s.len() == 1 {
        lemma_all_well_written_index(s, 0);
    } else if s.len() > 1 {
        lemma_join_front(s);
        lemma_all_well_written_index(s, 0);
        lemma_all_well_written_index(s, 1);
        lemma_all_well_written_tail(s);
        let rest = s.subrange(1, s.len() as int);
        lemma_join_commas(rest);
        let x = spec_action_string(s[0]);
        let jr = join_actions(rest);
        let j = join_actions(s);
        if rest.len() > 1 {
            lemma_join_front(rest);
        }
        lemma_action_string_start(rest[0]);
        lemma_action_literals();
        assert(jr.len() > 0 && jr[0] == spec_action_string(rest[0])[0]) by {
            if rest.len() > 1 {
                assert(jr[0] == (spec_action_string(rest[0]) + ","@ + join_actions(rest.subrange(1, rest.len() as int)))[0]);
            }
        }
        assert forall|p: int| 0 <= p < j.len() && #[trigger] j[p] == ',' implies p + 1 < j.len() && j[p + 1]
            != 'a' && !is_ws(j[p + 1]) by {
            if p < x.len() {
                assert(j[p] == x[p]);
            } else if p == x.len() {
                assert(j[p + 1] == jr[0]);
            } else {
                assert(j[p] == jr[p - x.len() - 1]);
                assert(j[p + 1] == jr[p - x.len()]);
            }
        }
    }
}

pub proof fn lemma_intro_end_from(m: Seq<char>, c: int, k: int)
    requires
        7 <= c <= k < m.len(),
        intro_end_at(m, c),
        forall|q: int| c < q <= k ==> !#[trigger] intro_end_at(m, q),
    ensures
        menu_intro_end(m, k) == Some(c),
    decreases k,
{
    if k > c {
        lemma_intro_end_from(m, c, k - 1);
    }
}

/// The actions of a menu read back from their writing
#[verifier::rlimit(80)]
pub proof fn lemma_items_round_trip(s: Seq<ActionView>)
    requires
        all_well_written(s),
        s.len() > 0,
    ensures
        spec_parse_items(join_actions(s)) == Ok::<Seq<ActionView>, ParseActionErrorView>(s),
    decreases s, 0nat,
{
    lemma_all_well_written_index(s, 0);
    let x = spec_action_string(s[0]);
    let j = join_actions(s);
    lemma_action_round_trip(s[0]);
    lemma_action_literals();
    if s.len() == 1 {
        lemma_first_char_from(j, ',', 0);
        assert(j.subrange(0, j.len() as int) =~= j);
        assert(spec_parse_items(Seq::<char>::empty()) == Ok::<Seq<ActionView>, ParseActionErrorView>(Seq::empty()));
        assert(seq![s[0]] + Seq::<ActionView>::empty() =~= s);
    } else {
        lemma_join_front(s);
        lemma_all_well_written_tail(s);
        let rest = s.subrange(1, s.len() as int);
        lemma_items_round_trip(rest);
        assert(j[x.len() as int] == ',');
        assert forall|k: int| 0 <= k < x.len() implies j[k] != ',' by {
            assert(j[k] == x[k]);
        }
        lemma_first_char_from_is(j, ',', 0, x.len() as int);
        assert(j.subrange(0, x.len() as int) =~= x);
        assert(j.skip(x.len() as int + 1) =~= join_actions(rest));
        assert(seq![s[0]] + rest =~= s);
    }
}

/// The writing of a menu, between "open-menu(" and "])"
pub open spec fn menu_writing(intro: Option<Seq<char>>, actions: Seq<ActionView>) -> Seq<char> {
    let ip = match intro {
        Some(i) => "intro="@ + i + ","@,
        None => Seq::empty(),
    };
    ip + "actions=["@ + join_actions(actions)
}

pub proof fn lemma_join_start(actions: Seq<ActionView>)
    requires
        all_well_written(actions),
        actions.len() > 0,
    ensures
        join_actions(actions).len() > 0,
        join_actions(actions)[0] != 'a',
        !is_ws(join_actions(actions)[0]),
{
    let j = join_actions(actions);
    lemma_all_well_written_index(actions, 0);
    lemma_action_string_start(actions[0]);
    if actions.len() > 1 {
        lemma_join_front(actions);
        assert(j[0] == (spec_action_string(actions[0]) + ","@ + join_actions(actions.subrange(1, actions.len() as int)))[0]);
    }
}

/// No comma after the end of the introduction can end it: the commas of
/// the actions aren't followed by "actions=["
#[verifier::rlimit(40)]
pub proof fn lemma_no_later_intro_end(m: Seq<char>, c: int, j: Seq<char>)
    requires
        7 <= c,
        c + 10 + j.len() == m.len(),
        m.subrange(c + 1, c + 10) == "actions=["@,
        m.skip(c + 10) == j,
        forall|p: int| 0 <= p < j.len() && #[trigger] j[p] == ',' ==> p + 1 < j.len() && j[p + 1] != 'a'
            && !is_ws(j[p + 1]),
    ensures
        forall|q: int| c < q <= m.len() - 1 ==> !#[trigger] intro_end_at(m, q),
{
    reveal_strlit("actions=[");
    assert forall|q: int| c < q <= m.len() - 1 implies !#[trigger] intro_end_at(m, q) by {
        if q <= c + 9 {
            assert(m[q] == m.subrange(c + 1, c + 10)[q - c - 1]);
        } else {
            let p = q - c - 10;
            assert(m[q] == j[p]);
            if j[p] == ',' {
                assert(m[q + 1] == j[p + 1]);
                assert(m.skip(q + 1)[0] == j[p + 1]);
                assert(leading_ws_count(m.skip(q + 1)) == 0);
                assert(!occurs_at(m, "actions=["@, q + 1)) by {
                    if occurs_at(m, "actions=["@, q + 1) {
                        assert(m.subrange(q + 1, q + 10)[0] == m[q + 1]);
                    }
                }
            }
        }
    }
}

#[verifier::rlimit(80)]
pub proof fn lemma_menu_parts_written(intro: Option<Seq<char>>, actions: Seq<ActionView>)
    requires
        match intro {
            Some(i) => i.len() > 0 && no_lf(i),
            None => true,
        },
        actions.len() > 0,
        all_well_written(actions),
    ensures
        menu_parts(menu_writing(intro, actions)) == Some((intro, join_actions(actions))),
{
    lemma_action_literals();
    let j = join_actions(actions);
    lemma_join_no_lf(actions);
    lemma_join_start(actions);
    let m = menu_writing(intro, actions);
    match intro {
        None => {
            assert(m =~= "actions=["@ + j);
            assert(!occurs_at(m, "intro="@, 0)) by {
                assert(m[0] == 'a');
            }
            assert(m.subrange(0, 9) =~= "actions=["@);
            assert(m.skip(9) =~= j);
        },
        Some(i) => {
            let c: int = 6int + i.len() as int;
            assert(m =~= "intro="@ + i + ","@ + "actions=["@ + j);
            assert(m.subrange(0, 6) =~= "intro="@);
            assert(m[c] == ',');
            assert(m.subrange(6, c) =~= i);
            assert(m.skip(c + 1) =~= "actions=["@ + j);
            assert(leading_ws_count(m.skip(c + 1)) == 0) by {
                assert(m.skip(c + 1)[0] == 'a');
            }
            assert(m.subrange(c + 1, c + 10) =~= "actions=["@);
            assert(m.skip(c + 10) =~= j);
            assert(intro_end_at(m, c));
            lemma_join_commas(actions);
            lemma_no_later_intro_end(m, c, j);
            lemma_intro_end_from(m, c, m.len() - 1);
        },
    }
}

#[verifier::rlimit(80)]
pub proof fn lemma_round_trip_openmenu(a: ActionView)
    requires
        well_written(a),
        a is OpenMenu,
    ensures
        spec_parse_action(spec_action_string(a)) == Ok::<ActionView, ParseActionErrorView>(a),
    decreases a, 1nat,
{
    lemma_action_literals();
    let s = spec_action_string(a);
    let intro = a->OpenMenu_0;
    let actions = a->OpenMenu_1;
    let m = menu_writing(intro, actions);
    lemma_items_round_trip(actions);
    lemma_menu_parts_written(intro, actions);
    assert(s =~= "open-menu("@ + m + "])"@);
    assert(s[0] == 'o');
    assert(strip_internal(s) == s);
    assert(!occurs_at(s, "export:"@, 0));
    assert(!occurs_at(s, "job:"@, 0));
    assert(plain_action(s) is None) by {
        assert(s[5] == 'm');
    }
    assert(s.subrange(0, 10) =~= "open-menu("@);
    assert(s.subrange(s.len() - 2, s.len() as int) =~= "])"@);
    assert(s.subrange(10, s.len() - 2) =~= m);
    assert(menu_inner(s) == Some(m));
}

/// The names of the actions written alone, as in the key bindings of the
/// configuration (part 1): each one is read as the action it
/// names
#[verifier::rlimit(60)]
pub proof fn lemma_action_names_1()
    ensures
        spec_parse_action("back"@) == Ok::<ActionView, ParseActionErrorView>(ActionView::Back),
        spec_parse_action("back-or-quit"@) == Ok::<ActionView, ParseActionErrorView>(ActionView::BackOrQuit),
        spec_parse_action("dismiss-top"@) == Ok::<ActionView, ParseActionErrorView>(ActionView::DismissTop),
        spec_parse_action("dismiss-top-item"@) == Ok::<ActionView, ParseActionErrorView>(ActionView::DismissTopItem),
        spec_parse_action("dismiss-top-item-type"@) == Ok::<ActionView, ParseActionErrorView>(ActionView::DismissTopItemType),
        spec_parse_action("help"@) == Ok::<ActionView, ParseActionErrorView>(ActionView::Help),
{
    lemma_action_literals();
}

/// The names of the actions written alone, as in the key bindings of the
/// configuration (part 2): each one is read as the action it
/// names
#[verifier::rlimit(60)]
pub proof fn lemma_action_names_2()
    ensures
        spec_parse_action("quit"@) == Ok::<ActionView, ParseActionErrorView>(ActionView::Quit),
        spec_parse_action("refresh"@) == Ok::<ActionView, ParseActionErrorView>(ActionView::Refresh),
        spec_parse_action("reload-config"@) == Ok::<ActionView, ParseActionErrorView>(ActionView::ReloadConfig),
        spec_parse_action("rerun"@) == Ok::<ActionView, ParseActionErrorView>(ActionView::ReRun),
        spec_parse_action("scope-to-failures"@) == Ok::<ActionView, ParseActionErrorView>(ActionView::ScopeToFailures),
        spec_parse_action("toggle-raw-output"@) == Ok::<ActionView, ParseActionErrorView>(ActionView::ToggleRawOutput),
{
    lemma_action_literals();
}

/// The names of the actions written alone, as in the key bindings of the
/// configuration (part 3): each one is read as the action it
/// names
#[verifier::rlimit(60)]
pub proof fn lemma_action_names_3()
    ensures
        spec_parse_action("toggle-summary"@) == Ok::<ActionView, ParseActionErrorView>(ActionView::ToggleSummary),
        spec_parse_action("toggle-wrap"@) == Ok::<ActionView, ParseActionErrorView>(ActionView::ToggleWrap),
        spec_parse_action("noop"@) == Ok::<ActionView, ParseActionErrorView>(ActionView::NoOp),
        spec_parse_action("no-op"@) == Ok::<ActionView, ParseActionErrorView>(ActionView::NoOp),
        spec_parse_action("no-operation"@) == Ok::<ActionView, ParseActionErrorView>(ActionView::NoOp),
        spec_parse_action("pause"@) == Ok::<ActionView, ParseActionErrorView>(ActionView::Pause),
{
    lemma_action_literals();
}

/// The names of the actions written alone, as in the key bindings of the
/// configuration (part 4): each one is read as the action it
/// names
#[verifier::rlimit(60)]
pub proof fn lemma_action_names_4()
    ensures
        spec_parse_action("unpause"@) == Ok::<ActionView, ParseActionErrorView>(ActionView::Unpause),
        spec_parse_action("toggle-pause"@) == Ok::<ActionView, ParseActionErrorView>(ActionView::TogglePause),
        spec_parse_action("focus-search"@) == Ok::<ActionView, ParseActionErrorView>(ActionView::FocusSearch),
        spec_parse_action("focus-goto"@) == Ok::<ActionView, ParseActionErrorView>(ActionView::FocusGoto),
        spec_parse_action("validate"@) == Ok::<ActionView, ParseActionErrorView>(ActionView::Validate),
        spec_parse_action("next-match"@) == Ok::<ActionView, ParseActionErrorView>(ActionView::NextMatch),
{
    lemma_action_literals();
}

/// The names of the actions written alone, as in the key bindings of the
/// configuration (part 5): each one is read as the action it
/// names
#[verifier::rlimit(60)]
pub proof fn lemma_action_names_5()
    ensures
        spec_parse_action("previous-match"@) == Ok::<ActionView, ParseActionErrorView>(ActionView::PreviousMatch),
        spec_parse_action("undismiss-all"@) == Ok::<ActionView, ParseActionErrorView>(ActionView::UndismissAll),
        spec_parse_action("open-undismiss-menu"@) == Ok::<ActionView, ParseActionErrorView>(ActionView::OpenUndismissMenu),
        spec_parse_action("copy-unstyled-output"@) == Ok::<ActionView, ParseActionErrorView>(ActionView::CopyUnstyledOutput),
{
    lemma_action_literals();
}

/// The menu of jobs is opened by "open-jobs-menu", or "open-job-menu"
pub proof fn lemma_action_names_jobs_menu()
    ensures
        spec_parse_action("open-jobs-menu"@) == Ok::<ActionView, ParseActionErrorView>(ActionView::OpenJobsMenu),
        spec_parse_action("open-job-menu"@) == Ok::<ActionView, ParseActionErrorView>(ActionView::OpenJobsMenu),
{
    lemma_action_literals();
    let s = "open-jobs-menu"@;
    assert(s.subrange(0, 14) =~= s);
    assert(s[5] != "open-menu("@[5]);
    assert(!occurs_at(s, "open-menu("@, 0));
    assert(plain_action(s) is None);
    let o = "open-job-menu"@;
    assert(o.subrange(0, 13) =~= o);
    assert(o[5] != "open-menu("@[5]);
    assert(!occurs_at(o, "open-menu("@, 0));
    assert(plain_action(o) is None);
}

/// "toggle-backtrace" alone toggles the backtrace at level 1, and
/// "play-sound" alone plays the default sound
pub proof fn lemma_action_names_defaults()
    ensures
        spec_parse_action("toggle-backtrace"@) == Ok::<ActionView, ParseActionErrorView>(ActionView::ToggleBacktrace("1"@)),
        spec_parse_action("play-sound"@) == Ok::<ActionView, ParseActionErrorView>(ActionView::PlaySound(None, None)),
{
    lemma_action_literals();
}

/// The writing of each action: its name, or its name and its argument
pub proof fn lemma_action_writings(x: Seq<char>, o: Option<Seq<char>>, v: Option<Seq<char>>)
    ensures
        spec_action_string(ActionView::Back) == "back"@,
        spec_action_string(ActionView::BackOrQuit) == "back-or-quit"@,
        spec_action_string(ActionView::CopyUnstyledOutput) == "copy-unstyled-output"@,
        spec_action_string(ActionView::DismissTop) == "dismiss-top"@,
        spec_action_string(ActionView::DismissTopItem) == "dismiss-top-item"@,
        spec_action_string(ActionView::DismissTopItemType) == "dismiss-top-item-type"@,
        spec_action_string(ActionView::FocusGoto) == "focus-goto"@,
        spec_action_string(ActionView::FocusSearch) == "focus-search"@,
        spec_action_string(ActionView::Help) == "help"@,
        spec_action_string(ActionView::NextMatch) == "next-match"@,
        spec_action_string(ActionView::NoOp) == "no-op"@,
        spec_action_string(ActionView::OpenJobsMenu) == "open-jobs-menu"@,
        spec_action_string(ActionView::OpenUndismissMenu) == "open-undismiss-menu"@,
        spec_action_string(ActionView::Pause) == "pause"@,
        spec_action_string(ActionView::PreviousMatch) == "previous-match"@,
        spec_action_string(ActionView::Quit) == "quit"@,
        spec_action_string(ActionView::ReRun) == "rerun"@,
        spec_action_string(ActionView::Refresh) == "refresh"@,
        spec_action_string(ActionView::ReloadConfig) == "reload-config"@,
        spec_action_string(ActionView::ScopeToFailures) == "scope-to-failures"@,
        spec_action_string(ActionView::TogglePause) == "toggle-pause"@,
        spec_action_string(ActionView::ToggleRawOutput) == "toggle-raw-output"@,
        spec_action_string(ActionView::ToggleSummary) == "toggle-summary"@,
        spec_action_string(ActionView::ToggleWrap) == "toggle-wrap"@,
        spec_action_string(ActionView::UndismissAll) == "undismiss-all"@,
        spec_action_string(ActionView::Unpause) == "unpause"@,
        spec_action_string(ActionView::Validate) == "validate"@,
        spec_action_string(ActionView::Export(x)) == "export:"@ + x,
        spec_action_string(ActionView::Job(x)) == "job:"@ + x,
        spec_action_string(ActionView::FocusFile(x)) == "focus-file("@ + x + ")"@,
        spec_action_string(ActionView::Scroll(x)) == x,
        spec_action_string(ActionView::ToggleBacktrace(x)) == "toggle-backtrace("@ + x + ")"@,
        spec_action_string(ActionView::UndismissLocation(x)) == "undismiss-location("@ + x + ")"@,
        spec_action_string(ActionView::UndismissDiagType(x)) == "undismiss-diag-type("@ + x + ")"@,
        spec_action_string(ActionView::PlaySound(o, v)) == "play-sound("@ + match o {
            Some(n) => "name="@ + n + ","@,
            None => Seq::empty(),
        } + match v {
            Some(w) => "volume="@ + w,
            None => Seq::empty(),
        } + ")"@,
{
}


} // verus!
