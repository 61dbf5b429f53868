//! Control sequences of the styles that the recognizers look for or produce.
use vstd::prelude::*;

verus! {

pub const CSI_BOLD: &'static str = "\u{1b}[1m";

pub const CSI_ITALIC: &'static str = "\u{1b}[3m";

pub const CSI_GREEN: &'static str = "\u{1b}[32m";

pub const CSI_RED: &'static str = "\u{1b}[31m";

pub const CSI_BOLD_RED: &'static str = "\u{1b}[1m\u{1b}[38;5;9m";

pub const CSI_BOLD_YELLOW: &'static str = "\u{1b}[1m\u{1b}[33m";

pub const CSI_BOLD_BLUE: &'static str = "\u{1b}[1m\u{1b}[38;5;12m";

pub const CSI_BOLD_ORANGE: &'static str = "\u{1b}[1m\u{1b}[38;5;208m";

pub const CSI_BOLD_GREEN: &'static str = "\u{1b}[1m\u{1b}[32m";

/// Style of the badge opening the title of a failed test
pub const CSI_FAIL_BADGE: &'static str = "\u{1b}[1m\u{1b}[38;5;235m\u{1b}[48;5;208m";

/// Style of the badge opening the title of a passed test
pub const CSI_PASS_BADGE: &'static str = "\u{1b}[1m\u{1b}[38;5;254m\u{1b}[48;5;2m";

} // verus!
