//! The mapping from key combinations to actions.
use vstd::prelude::*;
use crate::action::{Action, ActionMenuDefinition, ActionView, PlaySoundCommand, action_view, actions_view};
use crate::text::{opt_view, str_eq};

verus! {

/// A mapping from key combinations to actions.
///
/// A key combination is written as the terminal library displays it (for
/// example "Ctrl-c", "F5", "PageUp", "?"). The bindings are kept in the
/// order they were set: the last binding of a key is the one that counts.
/// Several key combinations can go to the same action.
pub struct KeyBindings {
    pub bindings: Vec<(String, Action)>,
}

pub open spec fn bindings_view(s: Seq<(String, Action)>) -> Seq<(Seq<char>, ActionView)> {
    s.map_values(|b: (String, Action)| (b.0@, b.1@))
}

impl View for KeyBindings {
    type V = Seq<(Seq<char>, ActionView)>;

    open spec fn view(&self) -> Seq<(Seq<char>, ActionView)> {
        bindings_view(self.bindings@)
    }
}

/// The action bound to the key: the one of its last binding
pub open spec fn binding_of(b: Seq<(Seq<char>, ActionView)>, key: Seq<char>) -> Option<ActionView>
    decreases b.len(),
{
    if b.len() == 0 {
        None
    } else if b.last().0 == key {
        Some(b.last().1)
    } else {
        binding_of(b.drop_last(), key)
    }
}

/// A key bound in a later round of bindings gets the action of that round:
/// the key bindings of the configuration override the default ones
pub proof fn lemma_later_binding_wins(
    a: Seq<(Seq<char>, ActionView)>,
    b: Seq<(Seq<char>, ActionView)>,
    key: Seq<char>,
)
    ensures
        binding_of(a + b, key) == if binding_of(b, key) is Some {
            binding_of(b, key)
        } else {
            binding_of(a, key)
        },
    decreases b.len(),
{
    if b.len() == 0 {
        assert(a + b =~= a);
    } else {
        assert((a + b).drop_last() =~= a + b.drop_last());
        lemma_later_binding_wins(a, b.drop_last(), key);
    }
}

fn clone_opt_string(s: &Option<String>) -> (r: Option<String>)
    ensures
        opt_view(r) == opt_view(*s),
{
    match s {
        Some(s) => Some(s.clone()),
        None => None,
    }
}

/// A copy of the action
pub fn clone_action(a: &Action) -> (r: Action)
    ensures
        r@ == a@,
    decreases a,
{
    match a {
        Action::Back => Action::Back,
        Action::BackOrQuit => Action::BackOrQuit,
        Action::CopyUnstyledOutput => Action::CopyUnstyledOutput,
        Action::DismissTop => Action::DismissTop,
        Action::DismissTopItem => Action::DismissTopItem,
        Action::DismissTopItemType => Action::DismissTopItemType,
        Action::Export(s) => Action::Export(s.clone()),
        Action::FocusFile(s) => Action::FocusFile(s.clone()),
        Action::FocusGoto => Action::FocusGoto,
        Action::FocusSearch => Action::FocusSearch,
        Action::Help => Action::Help,
        Action::Job(s) => Action::Job(s.clone()),
        Action::NextMatch => Action::NextMatch,
        Action::NoOp => Action::NoOp,
        Action::OpenJobsMenu => Action::OpenJobsMenu,
        Action::OpenMenu(m) => {
            let mut actions: Vec<Action> = Vec::new();
            let mut i: usize = 0;
            while i < m.actions.len()
                invariant
                    i <= m.actions@.len(),
                    *a is OpenMenu && a->OpenMenu_0 == *m,
                    actions_view(actions@) == actions_view(m.actions@.subrange(0, i as int)),
                decreases m.actions@.len() - i,
            {
                proof {
                    assert(decreases_to!(*a => m.actions@[i as int]));
                }
                let x = clone_action(&m.actions[i]);
                let ghost before = actions@;
                actions.push(x);
                proof {
                    assert(actions@.subrange(0, actions@.len() - 1) =~= before);
                    assert(m.actions@.subrange(0, i + 1).subrange(0, i as int) =~= m.actions@.subrange(0, i as int));
                }
                i += 1;
            }
            assert(m.actions@.subrange(0, i as int) =~= m.actions@);
            Action::OpenMenu(Box::new(ActionMenuDefinition { intro: clone_opt_string(&m.intro), actions }))
        },
        Action::Pause => Action::Pause,
        Action::PlaySound(p) => Action::PlaySound(
            PlaySoundCommand { name: clone_opt_string(&p.name), volume: clone_opt_string(&p.volume) },
        ),
        Action::PreviousMatch => Action::PreviousMatch,
        Action::Quit => Action::Quit,
        Action::ReRun => Action::ReRun,
        Action::Refresh => Action::Refresh,
        Action::ReloadConfig => Action::ReloadConfig,
        Action::ScopeToFailures => Action::ScopeToFailures,
        Action::Scroll(s) => Action::Scroll(s.clone()),
        Action::ToggleBacktrace(s) => Action::ToggleBacktrace(s.clone()),
        Action::TogglePause => Action::TogglePause,
        Action::ToggleRawOutput => Action::ToggleRawOutput,
        Action::ToggleSummary => Action::ToggleSummary,
        Action::ToggleWrap => Action::ToggleWrap,
        Action::UndismissAll => Action::UndismissAll,
        Action::UndismissLocation(s) => Action::UndismissLocation(s.clone()),
        Action::UndismissDiagType(s) => Action::UndismissDiagType(s.clone()),
        Action::OpenUndismissMenu => Action::OpenUndismissMenu,
        Action::Unpause => Action::Unpause,
        Action::Validate => Action::Validate,
    }
}

/// The bindings of the vim keys, for scrolling
pub open spec fn vim_bindings() -> Seq<(Seq<char>, ActionView)> {
    seq![
        ("g"@, ActionView::Scroll("scroll-to-top"@)),
        ("Shift-g"@, ActionView::Scroll("scroll-to-bottom"@)),
        ("k"@, ActionView::Scroll("scroll-lines(-1)"@)),
        ("j"@, ActionView::Scroll("scroll-lines(1)"@)),
    ]
}

/// The bindings of the keys by default
pub open spec fn default_bindings() -> Seq<(Seq<char>, ActionView)> {
    default_bindings_part(0) + default_bindings_part(1) + default_bindings_part(2)
}

pub open spec fn default_bindings_part(k: int) -> Seq<(Seq<char>, ActionView)> {
    if k == 0 {
        seq![
            ("?"@, ActionView::Help),
            ("h"@, ActionView::Help),
            ("Ctrl-c"@, ActionView::Quit),
            ("Ctrl-q"@, ActionView::Quit),
            ("q"@, ActionView::Quit),
            ("F5"@, ActionView::Refresh),
            ("s"@, ActionView::ToggleSummary),
            ("w"@, ActionView::ToggleWrap),
            ("b"@, ActionView::ToggleBacktrace("1"@)),
            ("Home"@, ActionView::Scroll("scroll-to-top"@)),
            ("End"@, ActionView::Scroll("scroll-to-bottom"@)),
        ]
    } else if k == 1 {
        seq![
            ("Up"@, ActionView::Scroll("scroll-lines(-1)"@)),
            ("Down"@, ActionView::Scroll("scroll-lines(1)"@)),
            ("PageUp"@, ActionView::Scroll("scroll-pages(-1)"@)),
            ("PageDown"@, ActionView::Scroll("scroll-pages(1)"@)),
            ("Space"@, ActionView::Scroll("scroll-pages(0.8)"@)),
            ("f"@, ActionView::ScopeToFailures),
            ("Esc"@, ActionView::Back),
            ("Ctrl-d"@, ActionView::Job("default"@)),
            ("i"@, ActionView::Job("initial"@)),
            ("p"@, ActionView::TogglePause),
            ("/"@, ActionView::FocusSearch),
        ]
    } else {
        seq![
            (":"@, ActionView::FocusGoto),
            ("Enter"@, ActionView::Validate),
            ("Tab"@, ActionView::NextMatch),
            ("BackTab"@, ActionView::PreviousMatch),
            ("Ctrl-j"@, ActionView::OpenJobsMenu),
            ("a"@, ActionView::Job("check-all"@)),
            ("c"@, ActionView::Job("clippy"@)),
            ("d"@, ActionView::Job("doc-open"@)),
            ("t"@, ActionView::Job("test"@)),
            ("n"@, ActionView::Job("nextest"@)),
            ("r"@, ActionView::Job("run"@)),
        ]
    }
}

impl KeyBindings {
    /// No binding
    pub fn empty() -> (r: Self)
        ensures
            r@ == Seq::<(Seq<char>, ActionView)>::empty(),
    {
        let r = KeyBindings { bindings: Vec::new() };
        assert(r@ =~= Seq::<(Seq<char>, ActionView)>::empty());
        r
    }

    /// Bind the key to the action, replacing its previous binding
    pub fn set(&mut self, key: &str, action: Action)
        ensures
            final(self)@ == old(self)@.push((key@, action@)),
    {
        let ghost before = self.bindings@;
        let k = String::from_str(key);
        self.bindings.push((k, action));
        assert(bindings_view(self.bindings@) =~= bindings_view(before).push((key@, action@)));
    }

    /// The action bound to the key, if any: the one of its last binding
    pub fn get(&self, key: &str) -> (r: Option<&Action>)
        ensures
            match r {
                Some(a) => binding_of(self@, key@) == Some(a@),
                None => binding_of(self@, key@) is None,
            },
    {
        let mut i = self.bindings.len();
        assert(self.bindings@.subrange(0, i as int) =~= self.bindings@);
        while i > 0
            invariant
                i <= self.bindings@.len(),
                binding_of(self@, key@) == binding_of(bindings_view(self.bindings@.subrange(0, i as int)), key@),
            decreases i,
        {
            let ghost sub = bindings_view(self.bindings@.subrange(0, i as int));
            assert(sub.drop_last() =~= bindings_view(self.bindings@.subrange(0, i - 1)));
            assert(sub.last() == (self.bindings@[i - 1].0@, self.bindings@[i - 1].1@));
            if str_eq(self.bindings[i - 1].0.as_str(), key) {
                return Some(&self.bindings[i - 1].1);
            }
            i -= 1;
        }
        None
    }

    /// Add all the bindings of `other`, which override the ones of `self`
    pub fn add_all(&mut self, other: &KeyBindings)
        ensures
            final(self)@ == old(self)@ + other@,
    {
        let ghost start = self@;
        let mut i: usize = 0;
        while i < other.bindings.len()
            invariant
                i <= other.bindings@.len(),
                self@ == start + bindings_view(other.bindings@.subrange(0, i as int)),
            decreases other.bindings@.len() - i,
        {
            let a = clone_action(&other.bindings[i].1);
            let ghost before = self@;
            self.set(other.bindings[i].0.as_str(), a);
            assert(bindings_view(other.bindings@.subrange(0, i + 1)) =~= bindings_view(
                other.bindings@.subrange(0, i as int),
            ).push((other.bindings@[i as int].0@, other.bindings@[i as int].1@)));
            assert(self@ =~= start + bindings_view(other.bindings@.subrange(0, i + 1)));
            i += 1;
        }
        assert(other.bindings@.subrange(0, i as int) =~= other.bindings@);
    }

    /// Add the vim keys for scrolling: g, G, k, j
    pub fn add_vim_keys(&mut self)
        ensures
            final(self)@ == old(self)@ + vim_bindings(),
    {
        self.set("g", Action::Scroll(String::from_str("scroll-to-top")));
        self.set("Shift-g", Action::Scroll(String::from_str("scroll-to-bottom")));
        self.set("k", Action::Scroll(String::from_str("scroll-lines(-1)")));
        self.set("j", Action::Scroll(String::from_str("scroll-lines(1)")));
        assert(self@ =~= old(self)@ + vim_bindings());
    }

    fn add_default_part_0(&mut self)
        ensures
            final(self)@ == old(self)@ + default_bindings_part(0),
    {
        let ghost start = self@;
        self.set("?", Action::Help);
        self.set("h", Action::Help);
        self.set("Ctrl-c", Action::Quit);
        self.set("Ctrl-q", Action::Quit);
        self.set("q", Action::Quit);
        self.set("F5", Action::Refresh);
        self.set("s", Action::ToggleSummary);
        self.set("w", Action::ToggleWrap);
        self.set("b", Action::ToggleBacktrace(String::from_str("1")));
        self.set("Home", Action::Scroll(String::from_str("scroll-to-top")));
        self.set("End", Action::Scroll(String::from_str("scroll-to-bottom")));
        assert(self@ =~= start + default_bindings_part(0));
    }

    fn add_default_part_1(&mut self)
        ensures
            final(self)@ == old(self)@ + default_bindings_part(1),
    {
        let ghost start = self@;
        self.set("Up", Action::Scroll(String::from_str("scroll-lines(-1)")));
        self.set("Down", Action::Scroll(String::from_str("scroll-lines(1)")));
        self.set("PageUp", Action::Scroll(String::from_str("scroll-pages(-1)")));
        self.set("PageDown", Action::Scroll(String::from_str("scroll-pages(1)")));
        self.set("Space", Action::Scroll(String::from_str("scroll-pages(0.8)")));
        self.set("f", Action::ScopeToFailures);
        self.set("Esc", Action::Back);
        self.set("Ctrl-d", Action::Job(String::from_str("default")));
        self.set("i", Action::Job(String::from_str("initial")));
        self.set("p", Action::TogglePause);
        self.set("/", Action::FocusSearch);
        assert(self@ =~= start + default_bindings_part(1));
    }

    fn add_default_part_2(&mut self)
        ensures
            final(self)@ == old(self)@ + default_bindings_part(2),
    {
        let ghost start = self@;
        self.set(":", Action::FocusGoto);
        self.set("Enter", Action::Validate);
        self.set("Tab", Action::NextMatch);
        self.set("BackTab", Action::PreviousMatch);
        self.set("Ctrl-j", Action::OpenJobsMenu);
        self.set("a", Action::Job(String::from_str("check-all")));
        self.set("c", Action::Job(String::from_str("clippy")));
        self.set("d", Action::Job(String::from_str("doc-open")));
        self.set("t", Action::Job(String::from_str("test")));
        self.set("n", Action::Job(String::from_str("nextest")));
        self.set("r", Action::Job(String::from_str("run")));
        assert(self@ =~= start + default_bindings_part(2));
    }

    /// The bindings by default
    pub fn default_bindings() -> (r: Self)
        ensures
            r@ == default_bindings(),
    {
        let mut b = KeyBindings::empty();
        b.add_default_part_0();
        b.add_default_part_1();
        b.add_default_part_2();
        assert(b@ =~= default_bindings());
        b
    }
}

} // verus!
