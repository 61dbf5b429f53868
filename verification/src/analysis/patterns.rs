//! Recognition of the pieces of text that tools print around their
//! diagnostics: locations like "src/main.rs:12:5", counts of warnings,
//! test panics.
use vstd::prelude::*;
use crate::text::{all_ws, contains, find, leading_ws, leading_ws_count, lemma_leading_ws, no_lf, no_lf_exec, occurs_at, occurs_at_exec, is_digit, is_digit_char, is_number, is_number_exec, is_ws, is_ws_char};

verus! {

/// A character which can stand in the path of a location: neither a colon,
/// nor white space, nor a quote
pub open spec fn is_path_char(c: char) -> bool {
    c != ':' && !is_ws(c) && c != '\'' && c != '"'
}

/// A nonempty run of path characters
pub open spec fn is_path(s: Seq<char>) -> bool {
    s.len() > 0 && forall|i: int| 0 <= i < s.len() ==> #[trigger] is_path_char(s[i])
}

/// `s` is a path, a colon, a line number, a colon and a column, like
/// "src/main.rs:12:5"
pub open spec fn is_path_loc(s: Seq<char>) -> bool {
    exists|i: int, j: int| path_loc_split(s, i, j)
}

/// The two colons of a location are at `i` and `j`
pub open spec fn path_loc_split(s: Seq<char>, i: int, j: int) -> bool {
    &&& 0 <= i < j < s.len()
    &&& s[i] == ':'
    &&& s[j] == ':'
    &&& is_path(s.take(i))
    &&& is_number(s.subrange(i + 1, j))
    &&& is_number(s.skip(j + 1))
}

/// No decimal digit is white space
pub proof fn lemma_digit_not_ws(c: char)
    requires
        is_digit(c),
    ensures
        !is_ws(c),
{
}

/// No character of a location is white space
pub proof fn lemma_path_loc_no_ws(s: Seq<char>)
    requires
        is_path_loc(s),
    ensures
        forall|k: int| 0 <= k < s.len() ==> !is_ws(#[trigger] s[k]),
{
    let (i, j) = choose|i: int, j: int| path_loc_split(s, i, j);
    assert forall|k: int| 0 <= k < s.len() implies !is_ws(#[trigger] s[k]) by {
        if k < i {
            assert(is_path_char(s.take(i)[k]));
        } else if i < k < j {
            assert(is_digit(s.subrange(i + 1, j)[k - i - 1]));
        } else if k > j {
            assert(is_digit(s.skip(j + 1)[k - j - 1]));
        }
    }
}

/// Whether `s[from..to]` is a location
pub fn path_loc_exec(s: &[char], from: usize, to: usize) -> (r: bool)
    requires
        from <= to <= s@.len(),
    ensures
        r == is_path_loc(s@.subrange(from as int, to as int)),
{
    let ghost x = s@.subrange(from as int, to as int);
    let mut i = from;
    while i < to && s[i] != ':' && !is_ws_char(s[i]) && s[i] != '\'' && s[i] != '"'
        invariant
            from <= i <= to <= s@.len(),
            forall|k: int| from <= k < i ==> #[trigger] is_path_char(s@[k]),
        decreases to - i,
    {
        i += 1;
    }
    // `i` is the end of the path
    assert(i == to || !is_path_char(s@[i as int]));
    if i == from || i == to || s[i] != ':' {
        assert forall|a: int, b: int| !path_loc_split(x, a, b) by {
            if path_loc_split(x, a, b) {
                if a + from < i {
                    assert(x[a] == s@[a + from]);
                    assert(is_path_char(s@[a + from]));
                } else if a + from > i {
                    assert(is_path_char(x.take(a)[i - from]));
                    assert(x[i - from] == s@[i as int]);
                } else {
                    assert(x[a] == s@[i as int]);
                }
            }
        }
        return false;
    }
    let mut j = i + 1;
    while j < to && is_digit_char(s[j])
        invariant
            i < j <= to <= s@.len(),
            forall|k: int| i < k < j ==> #[trigger] is_digit(s@[k]),
        decreases to - j,
    {
        j += 1;
    }
    if j == i + 1 || j == to || s[j] != ':' {
        assert forall|a: int, b: int| !path_loc_split(x, a, b) by {
            if path_loc_split(x, a, b) {
                if a + from < i {
                    assert(x[a] == s@[a + from]);
                    assert(is_path_char(s@[a + from]));
                } else if a + from > i {
                    assert(is_path_char(x.take(a)[i - from]));
                    assert(x[i - from] == s@[i as int]);
                } else {
                    assert(x[a] == s@[i as int]);
                }
                assert(a + from == i);
                if b + from < j {
                    assert(x[b] == s@[b + from]);
                    assert(is_digit(s@[b + from]));
                } else if b + from > j {
                    assert(x.subrange(a + 1, b)[j - i - 1] == s@[j as int]);
                    assert(!is_digit(s@[j as int]));
                }
            }
        }
        return false;
    }
    let last = is_number_exec(s, j + 1, to);
    proof {
        assert(x.take(i - from) =~= s@.subrange(from as int, i as int));
        assert(x.subrange(i - from + 1, j - from) =~= s@.subrange(i + 1, j as int));
        assert(x.skip(j - from + 1) =~= s@.subrange(j + 1, to as int));
        assert(x[i - from] == s@[i as int]);
        assert(x[j - from] == s@[j as int]);
        if last {
            assert(path_loc_split(x, i - from, j - from));
        } else {
            assert forall|a: int, b: int| !path_loc_split(x, a, b) by {
                if path_loc_split(x, a, b) {
                    if a + from < i {
                        assert(x[a] == s@[a + from]);
                        assert(is_path_char(s@[a + from]));
                    } else if a + from > i {
                        assert(is_path_char(x.take(a)[i - from]));
                    }
                    if b + from < j {
                        assert(x[b] == s@[b + from]);
                        assert(is_digit(s@[b + from]));
                    } else if b + from > j {
                        assert(x.subrange(a + 1, b)[j - i - 1] == s@[j as int]);
                    }
                }
            }
        }
    }
    last
}

/// The end of the run of digits starting at `from`
pub fn digits_end(s: &[char], from: usize) -> (r: usize)
    requires
        from <= s@.len(),
    ensures
        from <= r <= s@.len(),
        forall|k: int| from <= k < r ==> #[trigger] is_digit(s@[k]),
        r == s@.len() || !is_digit(s@[r as int]),
{
    let mut j = from;
    while j < s.len() && is_digit_char(s[j])
        invariant
            from <= j <= s@.len(),
            forall|k: int| from <= k < j ==> #[trigger] is_digit(s@[k]),
        decreases s@.len() - j,
    {
        j += 1;
    }
    j
}

/// The position of the last white space character of `s`
pub fn last_ws(s: &[char]) -> (r: Option<usize>)
    ensures
        match r {
            Some(w) => w < s@.len() && is_ws(s@[w as int]) && forall|k: int|
                w < k < s@.len() ==> !is_ws(#[trigger] s@[k]),
            None => forall|k: int| 0 <= k < s@.len() ==> !is_ws(#[trigger] s@[k]),
        },
{
    let mut i = s.len();
    while i > 0
        invariant
            i <= s@.len(),
            forall|k: int| i <= k < s@.len() ==> !is_ws(#[trigger] s@[k]),
        decreases i,
    {
        if is_ws_char(s[i - 1]) {
            return Some(i - 1);
        }
        i -= 1;
    }
    None
}

/// `s` ends with a comma, a space and a location, like
/// "panicked at 'boom', src/main.rs:4:5"
pub open spec fn ends_with_comma_loc(s: Seq<char>) -> bool {
    exists|k: int| occurs_at(s, ", "@, k) && is_path_loc(#[trigger] s.skip(k + 2))
}

/// Whether `s` ends with a comma, a space and a location
pub fn comma_loc_exec(s: &[char]) -> (r: bool)
    ensures
        r == ends_with_comma_loc(s@),
{
    proof {
        reveal_strlit(", ");
    }
    let n = s.len();
    match last_ws(s) {
        None => {
            assert forall|k: int| !(occurs_at(s@, ", "@, k) && is_path_loc(#[trigger] s@.skip(k + 2))) by {
                if occurs_at(s@, ", "@, k) {
                    assert(s@.subrange(k, k + 2)[1] == s@[k + 1]);
                }
            }
            false
        },
        Some(w) => {
            if w < 1 || s[w - 1] != ',' || s[w] != ' ' {
                assert forall|k: int| !(occurs_at(s@, ", "@, k) && is_path_loc(#[trigger] s@.skip(k + 2))) by {
                    if occurs_at(s@, ", "@, k) && is_path_loc(s@.skip(k + 2)) {
                        assert(s@.subrange(k, k + 2)[1] == s@[k + 1]);
                        assert(s@.subrange(k, k + 2)[0] == s@[k]);
                        lemma_path_loc_no_ws(s@.skip(k + 2));
                        if w > k + 1 {
                            assert(s@.skip(k + 2)[w - k - 2] == s@[w as int]);
                        }
                    }
                }
                return false;
            }
            let r = path_loc_exec(s, w + 1, n);
            proof {
                assert(s@.skip(w + 1) =~= s@.subrange(w + 1, n as int));
                let k = w - 1;
                assert(s@.subrange(k, k + 2) =~= ", "@);
                if !r {
                    assert forall|k2: int| !(occurs_at(s@, ", "@, k2) && is_path_loc(#[trigger] s@.skip(k2 + 2))) by {
                        if occurs_at(s@, ", "@, k2) && is_path_loc(s@.skip(k2 + 2)) {
                            assert(s@.subrange(k2, k2 + 2)[1] == s@[k2 + 1]);
                            lemma_path_loc_no_ws(s@.skip(k2 + 2));
                            if w > k2 + 1 {
                                assert(s@.skip(k2 + 2)[w - k2 - 2] == s@[w as int]);
                            }
                        }
                    }
                }
            }
            r
        },
    }
}

/// `s` is indented white space, an arrow and a location, like
/// "  --> src/main.rs:4:5"
pub open spec fn is_arrow_loc(s: Seq<char>) -> bool {
    exists|m: int|
        1 <= m && all_ws(s.take(m)) && occurs_at(s, "--> "@, m) && is_path_loc(
            #[trigger] s.skip(m + 4),
        )
}

/// Whether `s` is indented white space, an arrow and a location
pub fn arrow_loc_exec(s: &[char]) -> (r: bool)
    ensures
        r == is_arrow_loc(s@),
{
    proof {
        reveal_strlit("--> ");
        lemma_leading_ws(s@);
    }
    let n = s.len();
    let m = leading_ws(s, 0, n);
    assert(s@.subrange(0, n as int) =~= s@);
    let arrow = ['-', '-', '>', ' '];
    let r = m >= 1 && occurs_at_exec(s, arrow.as_slice(), m) && path_loc_exec(s, m + 4, n);
    proof {
        assert(arrow@ =~= "--> "@);
        if m >= 1 && m + 4 <= n {
            assert(s@.skip(m + 4) =~= s@.subrange(m + 4, n as int));
        }
        if r {
            assert forall|j: int| 0 <= j < s@.take(m as int).len() implies #[trigger] is_ws(
                s@.take(m as int)[j],
            ) by {
                assert(is_ws(s@[j]));
            }
            assert(1 <= m && all_ws(s@.take(m as int)) && occurs_at(s@, "--> "@, m as int)
                && is_path_loc(s@.skip(m + 4)));
        } else {
            assert forall|m2: int|
                !(1 <= m2 && all_ws(s@.take(m2)) && occurs_at(s@, "--> "@, m2) && is_path_loc(
                    #[trigger] s@.skip(m2 + 4),
                )) by {
                if 1 <= m2 && all_ws(s@.take(m2)) && occurs_at(s@, "--> "@, m2) {
                    assert(s@.subrange(m2, m2 + 4)[0] == s@[m2]);
                    assert(!is_ws('-')) by {
                        assert(('-' as u32) == 0x2d);
                    }
                    if m2 > m {
                        assert(is_ws(s@.take(m2)[m as int]));
                    } else if m2 < m {
                        assert(is_ws(s@[m2]));
                    }
                }
            }
        }
    }
    r
}

/// `s` tells that a thread panicked at a location, like
/// "thread 'main' panicked at src/main.rs:4:5:"
pub open spec fn is_panicked_at(s: Seq<char>) -> bool {
    exists|k: int| panicked_split(s, k)
}

/// The quote closing the name of the thread is at `k`
pub open spec fn panicked_split(s: Seq<char>, k: int) -> bool {
    &&& occurs_at(s, "thread '"@, 0)
    &&& 8 < k
    &&& no_lf(s.subrange(8, k))
    &&& occurs_at(s, "' panicked at "@, k)
    &&& k + 14 <= s.len() - 1
    &&& s.last() == ':'
    &&& is_path_loc(s.subrange(k + 14, s.len() - 1))
}

proof fn lemma_panicked_literals()
    ensures
        "thread '"@.len() == 8,
        "' panicked at "@.len() == 14,
        "' panicked at "@[13] == ' ',
{
    reveal_strlit("thread '");
    reveal_strlit("' panicked at ");
}

/// Whether `s[from..]` tells that a thread panicked at a location
pub fn panicked_at_exec(s: &[char], from: usize) -> (r: bool)
    requires
        from <= s@.len(),
    ensures
        r == is_panicked_at(s@.skip(from as int)),
{
    proof {
        lemma_panicked_literals();
    }
    let ghost x = s@.skip(from as int);
    let n = s.len();
    let thread = crate::text::to_chars("thread '");
    let panicked = crate::text::to_chars("' panicked at ");
    match last_ws(s) {
        None => {
            assert forall|k: int| !panicked_split(x, k) by {
                if panicked_split(x, k) {
                    assert(x.subrange(k, k + 14)[13] == x[k + 13]);
                    assert(x[k + 13] == s@[from + k + 13]);
                }
            }
            false
        },
        Some(w) => {
            if w < from || w - from < 22 || n - w < 2 || s[n - 1] != ':' {
                assert forall|k: int| !panicked_split(x, k) by {
                    if panicked_split(x, k) {
                        assert(x.subrange(k, k + 14)[13] == x[k + 13]);
                        assert(x[k + 13] == s@[from + k + 13]);
                        lemma_path_loc_no_ws(x.subrange(k + 14, x.len() - 1));
                        if w > from + k + 13 {
                            if w < n - 1 {
                                assert(x.subrange(k + 14, x.len() - 1)[w - from - k - 14] == s@[w as int]);
                            } else {
                                assert(x.last() == s@[w as int]);
                            }
                        }
                    }
                }
                return false;
            }
            let k = w - 13;
            let r = occurs_at_exec(s, thread.as_slice(), from) && no_lf_exec(s, from + 8, k)
                && occurs_at_exec(s, panicked.as_slice(), k) && path_loc_exec(s, w + 1, n - 1);
            proof {
                let kk = k - from;
                assert(x.subrange(0, 8) =~= s@.subrange(from as int, from + 8));
                assert(x.subrange(8, kk) =~= s@.subrange(from + 8, k as int));
                assert(x.subrange(kk, kk + 14) =~= s@.subrange(k as int, k + 14));
                assert(x.subrange(kk + 14, x.len() - 1) =~= s@.subrange(w + 1, n - 1));
                assert(x.last() == s@[n - 1]);
                if r {
                    assert(panicked_split(x, kk));
                } else {
                    assert forall|k2: int| !panicked_split(x, k2) by {
                        if panicked_split(x, k2) {
                            assert(x.subrange(k2, k2 + 14)[13] == x[k2 + 13]);
                            assert(x[k2 + 13] == s@[from + k2 + 13]);
                            lemma_path_loc_no_ws(x.subrange(k2 + 14, x.len() - 1));
                            if w > from + k2 + 13 {
                                if w < n - 1 {
                                    assert(x.subrange(k2 + 14, x.len() - 1)[w - from - k2 - 14]
                                        == s@[w as int]);
                                } else {
                                    assert(x.last() == s@[w as int]);
                                }
                            }
                            assert(k2 == kk);
                        }
                    }
                }
            }
            r
        },
    }
}

/// The nonempty text between a prefix and a suffix of `s`, when it holds
/// no line feed
pub open spec fn delimited_key(s: Seq<char>, pre: Seq<char>, suf: Seq<char>) -> Option<Seq<char>> {
    if s.len() > pre.len() + suf.len() && occurs_at(s, pre, 0) && occurs_at(
        s,
        suf,
        s.len() - suf.len(),
    ) && no_lf(s.subrange(pre.len() as int, s.len() - suf.len())) {
        Some(s.subrange(pre.len() as int, s.len() - suf.len()))
    } else {
        None
    }
}

/// The bounds of the text between a prefix and a suffix of `s`
pub fn delimited_key_exec(s: &[char], pre: &[char], suf: &[char]) -> (r: Option<(usize, usize)>)
    ensures
        match r {
            Some((a, b)) => a <= b <= s@.len() && delimited_key(s@, pre@, suf@) == Some(
                s@.subrange(a as int, b as int),
            ),
            None => delimited_key(s@, pre@, suf@) is None,
        },
{
    let n = s.len();
    if pre.len() >= n || suf.len() >= n - pre.len() {
        return None;
    }
    let a = pre.len();
    let b = n - suf.len();
    if occurs_at_exec(s, pre, 0) && occurs_at_exec(s, suf, b) && no_lf_exec(s, a, b) {
        Some((a, b))
    } else {
        None
    }
}

/// The key of a line like "---- key stdout ----"
pub open spec fn fail_title_key(s: Seq<char>) -> Option<Seq<char>> {
    delimited_key(s, "---- "@, " stdout ----"@)
}

/// The key of a line like "thread 'key' has overflowed its stack"
pub open spec fn stack_overflow_key(s: Seq<char>) -> Option<Seq<char>> {
    delimited_key(s, "thread '"@, "' has overflowed its stack"@)
}

/// A count of warnings: "generated ", a number, " warning", at `i`, the
/// number having `d` digits
pub open spec fn generated_at(s: Seq<char>, i: int, d: int) -> bool {
    &&& occurs_at(s, "generated "@, i)
    &&& d >= 1
    &&& is_number(s.subrange(i + 10, i + 10 + d))
    &&& occurs_at(s, " warning"@, i + 10 + d)
}

/// `s` holds a count of warnings, like "generated 3 warnings"
pub open spec fn has_generated_warnings(s: Seq<char>) -> bool {
    exists|i: int, d: int| generated_at(s, i, d)
}

/// `s` ends with a count of warnings, like "generated 3 warnings"
pub open spec fn ends_with_generated_warnings(s: Seq<char>) -> bool {
    exists|i: int, d: int|
        generated_at(s, i, d) && (i + 10 + d + 8 == s.len() || (i + 10 + d + 9 == s.len() && s.last()
            == 's'))
}

proof fn lemma_warning_literals()
    ensures
        "generated "@.len() == 10,
        "generated "@[9] == ' ',
        " warning"@.len() == 8,
        " warning"@[0] == ' ',
        " warning"@[7] == 'g',
        " warning emitted"@.len() == 16,
        " warning emitted"@[0] == ' ',
        " warnings emitted"@.len() == 17,
        " warnings emitted"@[0] == ' ',
        ": "@.len() == 2,
{
    reveal_strlit("generated ");
    reveal_strlit(" warning");
    reveal_strlit(" warning emitted");
    reveal_strlit(" warnings emitted");
    reveal_strlit(": ");
}

/// Whether there's a count of warnings at `i`
fn generated_at_exec(s: &[char], i: usize, generated: &[char], warning: &[char]) -> (r: bool)
    requires
        i <= s@.len(),
        generated@ == "generated "@,
        warning@ == " warning"@,
    ensures
        r == exists|d: int| generated_at(s@, i as int, d),
        r ==> generated_at(s@, i as int, (digits_end_spec(s@, i + 10) - (i + 10))),
{
    proof {
        lemma_warning_literals();
    }
    let n = s.len();
    if !occurs_at_exec(s, generated, i) {
        return false;
    }
    assert(generated@.len() == 10);
    let e = digits_end(s, i + 10);
    proof {
        lemma_digits_end_spec(s@, i + 10, e as int);
    }
    let r = e > i + 10 && occurs_at_exec(s, warning, e);
    proof {
        let d = e - i - 10;
        assert(s@.subrange(i + 10, e as int).len() == d);
        if r {
            assert(generated_at(s@, i as int, d));
        } else {
            assert forall|d2: int| !generated_at(s@, i as int, d2) by {
                if generated_at(s@, i as int, d2) {
                    assert(s@.subrange(i + 10 + d2, i + 10 + d2 + 8)[0] == s@[i + 10 + d2]);
                    lemma_digit_or_not(s@[i + 10 + d2]);
                    if d2 < d {
                        assert(is_digit(s@[i + 10 + d2]));
                    } else if d2 > d {
                        assert(s@.subrange(i + 10, i + 10 + d2)[d] == s@[e as int]);
                    }
                }
            }
        }
    }
    r
}

/// The end of the run of digits starting at `from`
pub open spec fn digits_end_spec(s: Seq<char>, from: int) -> int
    decreases s.len() - from,
{
    if from < 0 || from >= s.len() || !is_digit(s[from]) {
        from
    } else {
        digits_end_spec(s, from + 1)
    }
}

pub proof fn lemma_digits_end_spec(s: Seq<char>, from: int, e: int)
    requires
        0 <= from <= e <= s.len(),
        forall|k: int| from <= k < e ==> #[trigger] is_digit(s[k]),
        e == s.len() || !is_digit(s[e]),
    ensures
        digits_end_spec(s, from) == e,
    decreases e - from,
{
    if from < e {
        lemma_digits_end_spec(s, from + 1, e);
    }
}

proof fn lemma_digit_or_not(c: char)
    ensures
        c == ' ' ==> !is_digit(c),
        c == ':' ==> !is_digit(c),
{
}

/// Whether `s` holds a count of warnings
pub fn has_generated_warnings_exec(s: &[char]) -> (r: bool)
    ensures
        r == has_generated_warnings(s@),
{
    let generated = crate::text::to_chars("generated ");
    let warning = crate::text::to_chars(" warning");
    let mut i: usize = 0;
    while i < s.len()
        invariant
            i <= s@.len(),
            generated@ == "generated "@,
            warning@ == " warning"@,
            forall|j: int, d: int| 0 <= j < i ==> !generated_at(s@, j, d),
        decreases s@.len() - i,
    {
        if generated_at_exec(s, i, generated.as_slice(), warning.as_slice()) {
            return true;
        }
        i += 1;
    }
    proof {
        lemma_warning_literals();
    }
    assert forall|j: int, d: int| !generated_at(s@, j, d) by {
        if 0 <= j < i {
        }
    }
    false
}

/// Whether `s` ends with a count of warnings
pub fn ends_with_generated_warnings_exec(s: &[char]) -> (r: bool)
    ensures
        r == ends_with_generated_warnings(s@),
{
    proof {
        lemma_warning_literals();
        reveal_strlit(" warnings");
    }
    let generated = crate::text::to_chars("generated ");
    let warning = crate::text::to_chars(" warning");
    let warnings = crate::text::to_chars(" warnings");
    let n = s.len();
    // the position of " warning"
    let e = if n >= 9 && occurs_at_exec(s, warnings.as_slice(), n - 9) {
        n - 9
    } else if n >= 8 && occurs_at_exec(s, warning.as_slice(), n - 8) {
        n - 8
    } else {
        assert forall|i: int, d: int| !(generated_at(s@, i, d) && (i + 10 + d + 8 == s@.len() || (i
            + 10 + d + 9 == s@.len() && s@.last() == 's'))) by {
            if generated_at(s@, i, d) && i + 10 + d + 9 == s@.len() && s@.last() == 's' {
                assert(s@.subrange(n - 9, n as int) =~= s@.subrange(i + 10 + d, i + 10 + d + 8).push(
                    's',
                ));
                assert(" warnings"@ =~= " warning"@.push('s')) by {
                    reveal_strlit(" warning");
                }
            }
        }
        return false;
    };
    // the start of the number
    let mut b = e;
    while b > 0 && is_digit_char(s[b - 1])
        invariant
            b <= e <= n == s@.len(),
            forall|k: int| b <= k < e ==> #[trigger] is_digit(s@[k]),
        decreases b,
    {
        b -= 1;
    }
    let r = b < e && b >= 10 && occurs_at_exec(s, generated.as_slice(), b - 10);
    proof {
        assert(" warnings"@ =~= " warning"@.push('s')) by {
            reveal_strlit(" warning");
        }
        if e == n - 9 {
            assert(s@.subrange(e as int, e + 8) =~= s@.subrange(n - 9, n as int).take(8));
            assert(s@.last() == s@.subrange(n - 9, n as int)[8]);
        }
        assert(s@.subrange(e as int, e + 8) =~= " warning"@);
        if r {
            let d = e - b;
            assert(s@.subrange(b as int, e as int).len() == d);
            assert(generated_at(s@, b - 10, d as int));
        } else {
            assert forall|i: int, d: int| !(generated_at(s@, i, d) && (i + 10 + d + 8 == s@.len() || (
            i + 10 + d + 9 == s@.len() && s@.last() == 's'))) by {
                if generated_at(s@, i, d) && (i + 10 + d + 8 == s@.len() || (i + 10 + d + 9
                    == s@.len() && s@.last() == 's')) {
                    // the " warning" found is the one of the count
                    if i + 10 + d + 8 == s@.len() && e == n - 9 {
                        assert(s@.subrange(i + 10 + d, i + 10 + d + 8)[7] == s@.last());
                    }
                    if i + 10 + d + 9 == s@.len() && e == n - 8 {
                        assert(s@.subrange(n - 9, n as int) =~= s@.subrange(
                            i + 10 + d,
                            i + 10 + d + 8,
                        ).push('s'));
                    }
                    assert(i + 10 + d == e);
                    assert(s@.subrange(i, i + 10)[9] == s@[i + 9]);
                    lemma_digit_or_not(s@[i + 9]);
                    if b > i + 10 {
                        assert(is_digit(s@.subrange(i + 10, e as int)[b - 1 - i - 10]));
                    } else if b < i + 10 {
                        assert(is_digit(s@[i + 9]));
                    }
                }
            }
        }
    }
    r
}

/// `s` starts with a count of emitted warnings, like ": 15 warnings emitted"
pub open spec fn is_n_warnings_emitted(s: Seq<char>) -> bool {
    occurs_at(s, ": "@, 0) && exists|d: int| emitted_count(s, d)
}

/// The count of emitted warnings has `d` digits
pub open spec fn emitted_count(s: Seq<char>, d: int) -> bool {
    d >= 1 && is_number(s.subrange(2, 2 + d)) && (occurs_at(s, " warning emitted"@, 2 + d)
        || occurs_at(s, " warnings emitted"@, 2 + d))
}

/// Whether `s` starts with a count of emitted warnings
pub fn n_warnings_emitted_exec(s: &[char]) -> (r: bool)
    ensures
        r == is_n_warnings_emitted(s@),
{
    proof {
        lemma_warning_literals();
    }
    let n = s.len();
    let colon = crate::text::to_chars(": ");
    let one = crate::text::to_chars(" warning emitted");
    let many = crate::text::to_chars(" warnings emitted");
    if !occurs_at_exec(s, colon.as_slice(), 0) {
        return false;
    }
    let e = digits_end(s, 2);
    let r = e > 2 && (occurs_at_exec(s, one.as_slice(), e) || occurs_at_exec(s, many.as_slice(), e));
    proof {
        let d = e - 2;
        assert(s@.subrange(2, e as int).len() == d);
        if r {
            assert(emitted_count(s@, d as int));
        } else {
            assert forall|d2: int| !emitted_count(s@, d2) by {
                if d2 >= 1 && is_number(s@.subrange(2, 2 + d2)) && (occurs_at(
                    s@,
                    " warning emitted"@,
                    2 + d2,
                ) || occurs_at(s@, " warnings emitted"@, 2 + d2)) {
                    if occurs_at(s@, " warning emitted"@, 2 + d2) {
                        assert(s@.subrange(2 + d2, 2 + d2 + 16)[0] == s@[2 + d2]);
                    } else {
                        assert(s@.subrange(2 + d2, 2 + d2 + 17)[0] == s@[2 + d2]);
                    }
                    lemma_digit_or_not(s@[2 + d2]);
                    if d2 < d {
                        assert(is_digit(s@[2 + d2]));
                    } else if d2 > d {
                        assert(s@.subrange(2, 2 + d2)[d] == s@[e as int]);
                    }
                }
            }
        }
    }
    r
}

/// `s` suggests to run with a backtrace
pub open spec fn suggests_backtrace(s: Seq<char>) -> bool {
    ||| contains(s, "Run with RUST_BACKTRACE="@)
    ||| contains(s, "run with RUST_BACKTRACE="@)
    ||| contains(s, "Run with `RUST_BACKTRACE="@)
    ||| contains(s, "run with `RUST_BACKTRACE="@)
}

/// Whether `p` stands somewhere in `s`
pub fn contains_exec(s: &[char], p: &str) -> (r: bool)
    ensures
        r == contains(s@, p@),
{
    let p = crate::text::to_chars(p);
    let r = find(s, p.as_slice());
    proof {
        crate::text::lemma_first_occurrence(s@, p@);
    }
    r.is_some()
}

/// Whether `s` suggests to run with a backtrace
pub fn suggests_backtrace_exec(s: &[char]) -> (r: bool)
    ensures
        r == suggests_backtrace(s@),
{
    contains_exec(s, "Run with RUST_BACKTRACE=") || contains_exec(s, "run with RUST_BACKTRACE=")
        || contains_exec(s, "Run with `RUST_BACKTRACE=") || contains_exec(
        s,
        "run with `RUST_BACKTRACE=",
    )
}

/// `s` starts, after white space, with "build failed"
pub open spec fn is_build_failed(s: Seq<char>) -> bool {
    occurs_at(s, "build failed"@, leading_ws_count(s) as int)
}

/// Whether `s` starts, after white space, with "build failed"
pub fn build_failed_exec(s: &[char]) -> (r: bool)
    ensures
        r == is_build_failed(s@),
{
    let n = s.len();
    let m = leading_ws(s, 0, n);
    assert(s@.subrange(0, n as int) =~= s@);
    let lit = crate::text::to_chars("build failed");
    occurs_at_exec(s, lit.as_slice(), m)
}

/// The white space characters of ASCII
pub open spec fn is_ascii_ws(c: char) -> bool {
    c == ' ' || c == '\t' || c == '\n' || c == '\x0C' || c == '\r'
}

/// Whether all the characters of `s` are ASCII white space (true of an empty
/// string)
pub fn is_ascii_spaces(s: &[char]) -> (r: bool)
    ensures
        r == forall|i: int| 0 <= i < s@.len() ==> #[trigger] is_ascii_ws(s@[i]),
{
    let mut i: usize = 0;
    while i < s.len()
        invariant
            i <= s@.len(),
            forall|j: int| 0 <= j < i ==> #[trigger] is_ascii_ws(s@[j]),
        decreases s@.len() - i,
    {
        let c = s[i];
        if !(c == ' ' || c == '\t' || c == '\n' || c == '\x0C' || c == '\r') {
            assert(!is_ascii_ws(s@[i as int]));
            return false;
        }
        i += 1;
    }
    true
}

/// Whether `c` is in the class `\w` of the patterns of lazy_regex (a
/// Unicode word character)
pub uninterp spec fn is_word(c: char) -> bool;

/// Calls `lazy_regex::Regex::is_match` with the pattern `^\w$` on the
/// character: whether the pattern engine sees it as a word character. The
/// contract names the result (`is_word`) and states what the documentation
/// of the class gives for a few characters: ASCII letters, digits and `_`
/// are word characters; white space, `:`, `-` and `.` are not. The rest of
/// the Unicode word table is not stated.
#[verifier::external_body]
pub(crate) fn is_word_char(c: char) -> (r: bool)
    ensures
        r == is_word(c),
        ('a' <= c <= 'z' || 'A' <= c <= 'Z' || '0' <= c <= '9' || c == '_') ==> r,
        (is_ws(c) || c == ':' || c == '-' || c == '.') ==> !r,
{
    let mut buf = [0u8; 4];
    lazy_regex::Regex::new(r"^\w$").unwrap().is_match(c.encode_utf8(&mut buf))
}

/// A character which can stand in the path of a location in the outputs of
/// go or biome: neither white space nor a colon
pub open spec fn is_plain_path_char(c: char) -> bool {
    c != ':' && !is_ws(c)
}

/// `s[s0..c3]` is a path, a colon at `c1`, a line number, a colon at `c2`
/// and a column, the column being all the digits which follow
pub open spec fn loc_split(s: Seq<char>, s0: int, c1: int, c2: int, c3: int) -> bool {
    &&& 0 <= s0 < c1
    &&& c1 + 1 < c2
    &&& c2 + 1 < c3
    &&& c3 <= s.len()
    &&& forall|k: int| s0 <= k < c1 ==> #[trigger] is_plain_path_char(s[k])
    &&& s[c1] == ':'
    &&& s[c2] == ':'
    &&& forall|k: int| c1 < k < c2 ==> #[trigger] is_digit(s[k])
    &&& forall|k: int| c2 < k < c3 ==> #[trigger] is_digit(s[k])
    &&& (c3 == s.len() || !is_digit(s[c3]))
}

/// There's a location from `s0` to `c3`
pub open spec fn loc_at(s: Seq<char>, s0: int, c3: int) -> bool {
    exists|c1: int, c2: int| loc_split(s, s0, c1, c2, c3)
}

/// A location starting at a given position has only one end
pub proof fn lemma_loc_unique(s: Seq<char>, s0: int, c3: int, d3: int)
    requires
        loc_at(s, s0, c3),
        loc_at(s, s0, d3),
    ensures
        c3 == d3,
{
    let (c1, c2) = choose|c1: int, c2: int| loc_split(s, s0, c1, c2, c3);
    let (d1, d2) = choose|d1: int, d2: int| loc_split(s, s0, d1, d2, d3);
    if d1 < c1 {
        assert(is_plain_path_char(s[d1]));
    } else if c1 < d1 {
        assert(is_plain_path_char(s[c1]));
    }
    if d2 < c2 {
        assert(is_digit(s[d2]));
    } else if c2 < d2 {
        assert(is_digit(s[c2]));
    }
    if d3 < c3 {
        assert(is_digit(s[d3]));
    } else if c3 < d3 {
        assert(is_digit(s[c3]));
    }
}

/// The end of the location starting at `s0`, if there's one
pub fn loc_exec(s: &[char], s0: usize) -> (r: Option<usize>)
    requires
        s0 <= s@.len(),
    ensures
        match r {
            Some(c3) => s0 < c3 <= s@.len() && loc_at(s@, s0 as int, c3 as int),
            None => forall|c3: int| !loc_at(s@, s0 as int, c3),
        },
{
    let n = s.len();
    let mut c1 = s0;
    while c1 < n && s[c1] != ':' && !is_ws_char(s[c1])
        invariant
            s0 <= c1 <= n == s@.len(),
            forall|k: int| s0 <= k < c1 ==> #[trigger] is_plain_path_char(s@[k]),
        decreases n - c1,
    {
        c1 += 1;
    }
    if c1 == s0 || c1 >= n || s[c1] != ':' {
        assert forall|c3: int| !loc_at(s@, s0 as int, c3) by {
            if loc_at(s@, s0 as int, c3) {
                let (d1, d2) = choose|d1: int, d2: int| loc_split(s@, s0 as int, d1, d2, c3);
                if d1 < c1 {
                    assert(is_plain_path_char(s@[d1]));
                } else if c1 < d1 {
                    assert(is_plain_path_char(s@[c1 as int]));
                }
            }
        }
        return None;
    }
    let c2 = digits_end(s, c1 + 1);
    if c2 == c1 + 1 || c2 >= n || s[c2] != ':' {
        assert forall|c3: int| !loc_at(s@, s0 as int, c3) by {
            if loc_at(s@, s0 as int, c3) {
                let (d1, d2) = choose|d1: int, d2: int| loc_split(s@, s0 as int, d1, d2, c3);
                if d1 < c1 {
                    assert(is_plain_path_char(s@[d1]));
                } else if c1 < d1 {
                    assert(is_plain_path_char(s@[c1 as int]));
                }
                if d2 < c2 {
                    assert(is_digit(s@[d2]));
                } else if c2 < d2 {
                    assert(is_digit(s@[c2 as int]));
                }
            }
        }
        return None;
    }
    let c3 = digits_end(s, c2 + 1);
    if c3 == c2 + 1 {
        assert forall|e3: int| !loc_at(s@, s0 as int, e3) by {
            if loc_at(s@, s0 as int, e3) {
                let (d1, d2) = choose|d1: int, d2: int| loc_split(s@, s0 as int, d1, d2, e3);
                if d1 < c1 {
                    assert(is_plain_path_char(s@[d1]));
                } else if c1 < d1 {
                    assert(is_plain_path_char(s@[c1 as int]));
                }
                if d2 < c2 {
                    assert(is_digit(s@[d2]));
                } else if c2 < d2 {
                    assert(is_digit(s@[c2 as int]));
                }
                assert(is_digit(s@[c2 + 1]));
            }
        }
        return None;
    }
    assert(loc_split(s@, s0 as int, c1 as int, c2 as int, c3 as int));
    Some(c3)
}

} // verus!
