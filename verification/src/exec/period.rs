//! Durations read from a string in the configuration, with a crude format
//! (eg "25ms" or "254ns" or "none")
use vstd::prelude::*;
use crate::analysis::patterns::{digits_end, digits_end_spec, lemma_digits_end_spec};
use crate::text::{all_ws, all_ws_exec, occurs_at, occurs_at_exec, to_chars};

verus! {

/// A duration: whole seconds and nanoseconds
#[derive(Debug, Clone, Copy, PartialEq, Eq, Structural)]
pub struct Period {
    pub secs: u64,
    pub nanos: u32,
}

/// Why a string isn't a period
#[derive(Debug, Clone, Copy, PartialEq, Eq, Structural)]
pub enum PeriodError {
    /// The number can't be read as a `u64` (too large, or made of digits
    /// which aren't ASCII)
    InvalidNumber,
    /// The string isn't a period
    InvalidPeriod,
}

/// The value of a number written with ASCII digits
pub open spec fn ascii_value(s: Seq<char>) -> nat
    decreases s.len(),
{
    if s.len() == 0 {
        0
    } else {
        ascii_value(s.drop_last()) * 10 + ((s.last() as u32) - 0x30) as nat
    }
}

/// All the characters are ASCII digits
pub open spec fn all_ascii_digits(s: Seq<char>) -> bool {
    forall|i: int| 0 <= i < s.len() ==> '0' <= #[trigger] s[i] <= '9'
}

/// A well formed period has less than a second of nanoseconds
pub open spec fn is_well_formed(p: Period) -> bool {
    p.nanos < 1_000_000_000
}

/// A parsed period is well formed
pub proof fn lemma_parsed_period_well_formed(s: Seq<char>)
    ensures
        spec_parse_period(s) is Ok ==> is_well_formed(spec_parse_period(s)->Ok_0),
{
}

/// The number read as a `u64`, if it can be
pub open spec fn spec_parse_u64(s: Seq<char>) -> Option<u64> {
    if all_ascii_digits(s) && ascii_value(s) <= u64::MAX {
        Some(ascii_value(s) as u64)
    } else {
        None
    }
}

/// `s` is the number (its digits ending at `d`), optional white space and
/// the unit
pub open spec fn has_unit(s: Seq<char>, d: int, unit: Seq<char>) -> bool {
    &&& d >= 1
    &&& d + unit.len() <= s.len()
    &&& all_ws(s.subrange(d, s.len() - unit.len()))
    &&& occurs_at(s, unit, s.len() - unit.len())
}

/// The period of `n` nanoseconds
pub open spec fn from_nanos(n: u64) -> Period {
    Period { secs: (n / 1_000_000_000) as u64, nanos: (n % 1_000_000_000) as u32 }
}

/// The period of `n` milliseconds
pub open spec fn from_millis(n: u64) -> Period {
    Period { secs: (n / 1000) as u64, nanos: ((n % 1000) * 1_000_000) as u32 }
}

/// The period of `n` seconds
pub open spec fn from_secs(n: u64) -> Period {
    Period { secs: n, nanos: 0 }
}

/// No character of `s` is a nonzero ASCII digit
pub open spec fn no_nonzero_digit(s: Seq<char>) -> bool {
    forall|i: int| 0 <= i < s.len() ==> !('1' <= #[trigger] s[i] <= '9')
}

/// The period written in `s`: a number followed by "ns", "ms" or "s"
/// (possibly after white space), or a string without nonzero digit (like
/// "none", "0" or "off") for a zero period
pub open spec fn spec_parse_period(s: Seq<char>) -> Result<Period, PeriodError> {
    let d = digits_end_spec(s, 0);
    let n = spec_parse_u64(s.take(d));
    if has_unit(s, d, "ns"@) {
        match n {
            Some(n) => Ok(from_nanos(n)),
            None => Err(PeriodError::InvalidNumber),
        }
    } else if has_unit(s, d, "ms"@) {
        match n {
            Some(n) => Ok(from_millis(n)),
            None => Err(PeriodError::InvalidNumber),
        }
    } else if has_unit(s, d, "s"@) {
        match n {
            Some(n) => Ok(from_secs(n)),
            None => Err(PeriodError::InvalidNumber),
        }
    } else if no_nonzero_digit(s) {
        Ok(Period { secs: 0, nanos: 0 })
    } else {
        Err(PeriodError::InvalidPeriod)
    }
}

/// The number written in `s[0..d]`, as a `u64`
fn parse_u64(s: &[char], d: usize) -> (r: Option<u64>)
    requires
        d <= s@.len(),
    ensures
        r == spec_parse_u64(s@.take(d as int)),
{
    let mut v: u64 = 0;
    let mut i: usize = 0;
    while i < d
        invariant
            i <= d <= s@.len(),
            all_ascii_digits(s@.take(i as int)),
            v == ascii_value(s@.take(i as int)),
        decreases d - i,
    {
        let c = s[i];
        assert(s@.take(i + 1).drop_last() =~= s@.take(i as int));
        if !('0' <= c && c <= '9') {
            assert(!all_ascii_digits(s@.take(d as int))) by {
                assert(s@.take(d as int)[i as int] == c);
            }
            return None;
        }
        let digit = (c as u32 - 0x30) as u64;
        let next = match v.checked_mul(10) {
            Some(m) => m.checked_add(digit),
            None => None,
        };
        match next {
            Some(w) => {
                v = w;
            },
            None => {
                proof {
                    lemma_ascii_value_grows(s@.take(d as int), i + 1);
                    assert(s@.take(d as int).take(i + 1) =~= s@.take(i + 1));
                }
                return None;
            },
        }
        assert forall|j: int| 0 <= j < s@.take(i + 1).len() implies '0' <= #[trigger] s@.take(i + 1)[j]
            <= '9' by {
            if j < i {
                assert(s@.take(i + 1)[j] == s@.take(i as int)[j]);
            }
        }
        i += 1;
    }
    Some(v)
}

/// The value of a number is at least that of its prefixes
proof fn lemma_ascii_value_grows(s: Seq<char>, k: int)
    requires
        0 <= k <= s.len(),
    ensures
        ascii_value(s.take(k)) <= ascii_value(s) || !all_ascii_digits(s),
    decreases s.len() - k,
{
    if k < s.len() && all_ascii_digits(s) {
        lemma_ascii_value_grows(s.drop_last(), k);
        assert(s.drop_last().take(k) =~= s.take(k));
        assert(all_ascii_digits(s.drop_last())) by {
            assert forall|i: int| 0 <= i < s.drop_last().len() implies '0' <= #[trigger] s.drop_last()[i]
                <= '9' by {
                assert(s.drop_last()[i] == s[i]);
            }
        }
        assert(s.last() == s[s.len() - 1]);
        assert(ascii_value(s) >= ascii_value(s.drop_last()));
    } else if k == s.len() {
        assert(s.take(k) =~= s);
    }
}

/// Whether `s` is the number ending at `d`, white space and the unit
fn has_unit_exec(s: &[char], d: usize, unit: &str) -> (r: bool)
    requires
        d <= s@.len(),
    ensures
        r == has_unit(s@, d as int, unit@),
{
    let u = to_chars(unit);
    let n = s.len();
    if d < 1 || u.len() > n - d {
        return false;
    }
    all_ws_exec(s, d, n - u.len()) && occurs_at_exec(s, u.as_slice(), n - u.len())
}

/// Whether no character of `c` is a nonzero ASCII digit
fn no_nonzero_digit_exec(c: &[char]) -> (r: bool)
    ensures
        r == no_nonzero_digit(c@),
{
    let mut i: usize = 0;
    while i < c.len()
        invariant
            i <= c@.len(),
            forall|j: int| 0 <= j < i ==> !('1' <= #[trigger] c@[j] <= '9'),
        decreases c@.len() - i,
    {
        if '1' <= c[i] && c[i] <= '9' {
            return false;
        }
        i += 1;
    }
    true
}

impl Period {
    /// Whether the period lasts no time
    pub fn is_zero(&self) -> (r: bool)
        ensures
            r == (self.secs == 0 && self.nanos == 0),
    {
        self.secs == 0 && self.nanos == 0
    }

    /// The period written in `s`, like "25ms", "254ns", "2s" or "none"
    pub fn parse(s: &str) -> (r: Result<Period, PeriodError>)
        ensures
            r == spec_parse_period(s@),
    {
        let c = to_chars(s);
        let c = c.as_slice();
        let d = digits_end(c, 0);
        proof {
            lemma_digits_end_spec(c@, 0, d as int);
        }
        let n = parse_u64(c, d);
        if has_unit_exec(c, d, "ns") {
            match n {
                Some(n) => Ok(Period { secs: n / 1_000_000_000, nanos: (n % 1_000_000_000) as u32 }),
                None => Err(PeriodError::InvalidNumber),
            }
        } else if has_unit_exec(c, d, "ms") {
            match n {
                Some(n) => Ok(Period { secs: n / 1000, nanos: ((n % 1000) * 1_000_000) as u32 }),
                None => Err(PeriodError::InvalidNumber),
            }
        } else if has_unit_exec(c, d, "s") {
            match n {
                Some(n) => Ok(Period { secs: n, nanos: 0 }),
                None => Err(PeriodError::InvalidNumber),
            }
        } else if no_nonzero_digit_exec(c) {
            Ok(Period { secs: 0, nanos: 0 })
        } else {
            Err(PeriodError::InvalidPeriod)
        }
    }
}

} // verus!
