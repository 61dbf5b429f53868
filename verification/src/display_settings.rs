use vstd::prelude::*;
use crate::cli::args::Args;

verus! {

/// The display preferences read from the preferences file
pub struct Prefs {
    pub summary: Option<bool>,
    pub wrap: Option<bool>,
}

#[derive(Debug, Clone, Copy, PartialEq, Eq, Structural)]
pub struct DisplaySettings {
    pub summary: bool,
    pub wrap: bool,
    pub reverse: bool,
}

/// The settings after the preferences are applied: a preference, when
/// given, replaces the setting
pub open spec fn prefs_applied(s: DisplaySettings, prefs: Prefs) -> DisplaySettings {
    DisplaySettings {
        summary: match prefs.summary {
            Some(b) => b,
            None => s.summary,
        },
        wrap: match prefs.wrap {
            Some(b) => b,
            None => s.wrap,
        },
        reverse: s.reverse,
    }
}

/// The settings after the launch arguments are applied, the positive flag
/// winning when both the positive and the negative one are given
pub open spec fn args_applied(s: DisplaySettings, args: Args) -> DisplaySettings {
    DisplaySettings {
        summary: if args.summary {
            true
        } else if args.no_summary {
            false
        } else {
            s.summary
        },
        wrap: if args.wrap {
            true
        } else if args.no_wrap {
            false
        } else {
            s.wrap
        },
        reverse: s.reverse,
    }
}

/// The launch arguments override the preferences: a setting given by the
/// arguments doesn't depend on the preferences, and one they don't give is
/// the preference, when there's one
pub proof fn lemma_args_override_prefs(s: DisplaySettings, prefs: Prefs, args: Args)
    ensures
        (args.summary || args.no_summary) ==> args_applied(prefs_applied(s, prefs), args).summary
            == args.summary,
        !(args.summary || args.no_summary) ==> args_applied(prefs_applied(s, prefs), args).summary
            == prefs_applied(s, prefs).summary,
        (args.wrap || args.no_wrap) ==> args_applied(prefs_applied(s, prefs), args).wrap
            == args.wrap,
        !(args.wrap || args.no_wrap) ==> args_applied(prefs_applied(s, prefs), args).wrap
            == prefs_applied(s, prefs).wrap,
{
}

impl DisplaySettings {
    pub fn apply_prefs(&mut self, prefs: &Prefs)
        ensures
            *final(self) == prefs_applied(*old(self), *prefs),
    {
        if let Some(b) = prefs.summary {
            self.summary = b;
        }
        if let Some(b) = prefs.wrap {
            self.wrap = b;
        }
    }

    /// Apply the launch arguments, the positive flag winning when both
    /// the positive and the negative one are given
    pub fn apply_args(&mut self, args: &Args)
        ensures
            *final(self) == args_applied(*old(self), *args),
    {
        if args.no_summary {
            self.summary = false;
        }
        if args.summary {
            self.summary = true;
        }
        if args.no_wrap {
            self.wrap = false;
        }
        if args.wrap {
            self.wrap = true;
        }
    }
}

impl Default for DisplaySettings {
    fn default() -> (r: Self)
        ensures
            r == (DisplaySettings { summary: false, wrap: false, reverse: true }),
    {
        Self { summary: false, wrap: false, reverse: true }
    }
}

} // verus!
