//! Character classes and operations on character sequences.
//!
//! Output lines are handled as sequences of `char`. The classes below are the
//! ones used by the line recognizers: white space as defined by the Unicode
//! `White_Space` property (what `char::is_whitespace` and the `\s` class use)
//! and decimal digits as defined by the Unicode `Decimal_Number` category
//! (what the `\d` class uses).
use vstd::prelude::*;

verus! {

/// Unicode `White_Space` property.
pub open spec fn is_ws(c: char) -> bool {
    let n = c as u32;
    ||| (0x9 <= n && n <= 0xd)
    ||| n == 0x20
    ||| n == 0x85
    ||| n == 0xa0
    ||| n == 0x1680
    ||| (0x2000 <= n && n <= 0x200a)
    ||| n == 0x2028
    ||| n == 0x2029
    ||| n == 0x202f
    ||| n == 0x205f
    ||| n == 0x3000
}

/// Unicode `Decimal_Number` general category.
pub open spec fn is_digit(c: char) -> bool {
    let n = c as u32;
        ||| (0x30 <= n && n <= 0x39)
        ||| (0x660 <= n && n <= 0x669)
        ||| (0x6f0 <= n && n <= 0x6f9)
        ||| (0x7c0 <= n && n <= 0x7c9)
        ||| (0x966 <= n && n <= 0x96f)
        ||| (0x9e6 <= n && n <= 0x9ef)
        ||| (0xa66 <= n && n <= 0xa6f)
        ||| (0xae6 <= n && n <= 0xaef)
        ||| (0xb66 <= n && n <= 0xb6f)
        ||| (0xbe6 <= n && n <= 0xbef)
        ||| (0xc66 <= n && n <= 0xc6f)
        ||| (0xce6 <= n && n <= 0xcef)
        ||| (0xd66 <= n && n <= 0xd6f)
        ||| (0xde6 <= n && n <= 0xdef)
        ||| (0xe50 <= n && n <= 0xe59)
        ||| (0xed0 <= n && n <= 0xed9)
        ||| (0xf20 <= n && n <= 0xf29)
        ||| (0x1040 <= n && n <= 0x1049)
        ||| (0x1090 <= n && n <= 0x1099)
        ||| (0x17e0 <= n && n <= 0x17e9)
        ||| (0x1810 <= n && n <= 0x1819)
        ||| (0x1946 <= n && n <= 0x194f)
        ||| (0x19d0 <= n && n <= 0x19d9)
        ||| (0x1a80 <= n && n <= 0x1a89)
        ||| (0x1a90 <= n && n <= 0x1a99)
        ||| (0x1b50 <= n && n <= 0x1b59)
        ||| (0x1bb0 <= n && n <= 0x1bb9)
        ||| (0x1c40 <= n && n <= 0x1c49)
        ||| (0x1c50 <= n && n <= 0x1c59)
        ||| (0xa620 <= n && n <= 0xa629)
        ||| (0xa8d0 <= n && n <= 0xa8d9)
        ||| (0xa900 <= n && n <= 0xa909)
        ||| (0xa9d0 <= n && n <= 0xa9d9)
        ||| (0xa9f0 <= n && n <= 0xa9f9)
        ||| (0xaa50 <= n && n <= 0xaa59)
        ||| (0xabf0 <= n && n <= 0xabf9)
        ||| (0xff10 <= n && n <= 0xff19)
        ||| (0x104a0 <= n && n <= 0x104a9)
        ||| (0x10d30 <= n && n <= 0x10d39)
        ||| (0x10d40 <= n && n <= 0x10d49)
        ||| (0x11066 <= n && n <= 0x1106f)
        ||| (0x110f0 <= n && n <= 0x110f9)
        ||| (0x11136 <= n && n <= 0x1113f)
        ||| (0x111d0 <= n && n <= 0x111d9)
        ||| (0x112f0 <= n && n <= 0x112f9)
        ||| (0x11450 <= n && n <= 0x11459)
        ||| (0x114d0 <= n && n <= 0x114d9)
        ||| (0x11650 <= n && n <= 0x11659)
        ||| (0x116c0 <= n && n <= 0x116c9)
        ||| (0x116d0 <= n && n <= 0x116e3)
        ||| (0x11730 <= n && n <= 0x11739)
        ||| (0x118e0 <= n && n <= 0x118e9)
        ||| (0x11950 <= n && n <= 0x11959)
        ||| (0x11bf0 <= n && n <= 0x11bf9)
        ||| (0x11c50 <= n && n <= 0x11c59)
        ||| (0x11d50 <= n && n <= 0x11d59)
        ||| (0x11da0 <= n && n <= 0x11da9)
        ||| (0x11f50 <= n && n <= 0x11f59)
        ||| (0x16130 <= n && n <= 0x16139)
        ||| (0x16a60 <= n && n <= 0x16a69)
        ||| (0x16ac0 <= n && n <= 0x16ac9)
        ||| (0x16b50 <= n && n <= 0x16b59)
        ||| (0x16d70 <= n && n <= 0x16d79)
        ||| (0x1ccf0 <= n && n <= 0x1ccf9)
        ||| (0x1d7ce <= n && n <= 0x1d7ff)
        ||| (0x1e140 <= n && n <= 0x1e149)
        ||| (0x1e2f0 <= n && n <= 0x1e2f9)
        ||| (0x1e4f0 <= n && n <= 0x1e4f9)
        ||| (0x1e5f1 <= n && n <= 0x1e5fa)
        ||| (0x1e950 <= n && n <= 0x1e959)
        ||| (0x1fbf0 <= n && n <= 0x1fbf9)
}

/// The characters matched by `.` in a pattern: anything but a line feed.
pub open spec fn is_any(c: char) -> bool {
    c != '\n'
}

/// Every character of `s` is white space (true of the empty sequence).
pub open spec fn all_ws(s: Seq<char>) -> bool {
    forall|i: int| 0 <= i < s.len() ==> #[trigger] is_ws(s[i])
}

/// `s` is a nonempty run of decimal digits.
pub open spec fn is_number(s: Seq<char>) -> bool {
    s.len() > 0 && forall|i: int| 0 <= i < s.len() ==> #[trigger] is_digit(s[i])
}

/// `s` is a nonempty run of white space.
pub open spec fn is_ws_run(s: Seq<char>) -> bool {
    s.len() > 0 && all_ws(s)
}

/// No character of `s` is a line feed.
pub open spec fn no_lf(s: Seq<char>) -> bool {
    forall|i: int| 0 <= i < s.len() ==> #[trigger] is_any(s[i])
}

/// `s` holds the character `c`.
pub open spec fn has_char(s: Seq<char>, c: char) -> bool {
    exists|i: int| 0 <= i < s.len() && s[i] == c
}

/// `p` stands in `s` at position `i`.
pub open spec fn occurs_at(s: Seq<char>, p: Seq<char>, i: int) -> bool {
    0 <= i && i + p.len() <= s.len() && s.subrange(i, i + p.len()) == p
}

/// `p` stands somewhere in `s`.
pub open spec fn contains(s: Seq<char>, p: Seq<char>) -> bool {
    exists|i: int| occurs_at(s, p, i)
}

/// The position of the first occurrence of `p` in `s`.
pub open spec fn first_occurrence(s: Seq<char>, p: Seq<char>) -> Option<int> {
    if exists|i: int| occurs_at(s, p, i) {
        Some(choose|i: int| occurs_at(s, p, i) && forall|j: int| 0 <= j < i ==> !occurs_at(s, p, j))
    } else {
        None
    }
}

/// `s` without its leading white space.
pub open spec fn trim_start(s: Seq<char>) -> Seq<char>
    decreases s.len(),
{
    if s.len() > 0 && is_ws(s[0]) {
        trim_start(s.drop_first())
    } else {
        s
    }
}

/// `s` without its trailing white space.
pub open spec fn trim_end(s: Seq<char>) -> Seq<char>
    decreases s.len(),
{
    if s.len() > 0 && is_ws(s.last()) {
        trim_end(s.drop_last())
    } else {
        s
    }
}

/// `s` without leading and trailing white space.
pub open spec fn trim(s: Seq<char>) -> Seq<char> {
    trim_end(trim_start(s))
}

pub fn is_ws_char(c: char) -> (r: bool)
    ensures
        r == is_ws(c),
{
    let n = c as u32;
    (0x9 <= n && n <= 0xd) || n == 0x20 || n == 0x85 || n == 0xa0 || n == 0x1680 || (0x2000 <= n
        && n <= 0x200a) || n == 0x2028 || n == 0x2029 || n == 0x202f || n == 0x205f || n == 0x3000
}

pub fn is_digit_char(c: char) -> (r: bool)
    ensures
        r == is_digit(c),
{
    let n = c as u32;
        (0x30 <= n && n <= 0x39)
        || (0x660 <= n && n <= 0x669)
        || (0x6f0 <= n && n <= 0x6f9)
        || (0x7c0 <= n && n <= 0x7c9)
        || (0x966 <= n && n <= 0x96f)
        || (0x9e6 <= n && n <= 0x9ef)
        || (0xa66 <= n && n <= 0xa6f)
        || (0xae6 <= n && n <= 0xaef)
        || (0xb66 <= n && n <= 0xb6f)
        || (0xbe6 <= n && n <= 0xbef)
        || (0xc66 <= n && n <= 0xc6f)
        || (0xce6 <= n && n <= 0xcef)
        || (0xd66 <= n && n <= 0xd6f)
        || (0xde6 <= n && n <= 0xdef)
        || (0xe50 <= n && n <= 0xe59)
        || (0xed0 <= n && n <= 0xed9)
        || (0xf20 <= n && n <= 0xf29)
        || (0x1040 <= n && n <= 0x1049)
        || (0x1090 <= n && n <= 0x1099)
        || (0x17e0 <= n && n <= 0x17e9)
        || (0x1810 <= n && n <= 0x1819)
        || (0x1946 <= n && n <= 0x194f)
        || (0x19d0 <= n && n <= 0x19d9)
        || (0x1a80 <= n && n <= 0x1a89)
        || (0x1a90 <= n && n <= 0x1a99)
        || (0x1b50 <= n && n <= 0x1b59)
        || (0x1bb0 <= n && n <= 0x1bb9)
        || (0x1c40 <= n && n <= 0x1c49)
        || (0x1c50 <= n && n <= 0x1c59)
        || (0xa620 <= n && n <= 0xa629)
        || (0xa8d0 <= n && n <= 0xa8d9)
        || (0xa900 <= n && n <= 0xa909)
        || (0xa9d0 <= n && n <= 0xa9d9)
        || (0xa9f0 <= n && n <= 0xa9f9)
        || (0xaa50 <= n && n <= 0xaa59)
        || (0xabf0 <= n && n <= 0xabf9)
        || (0xff10 <= n && n <= 0xff19)
        || (0x104a0 <= n && n <= 0x104a9)
        || (0x10d30 <= n && n <= 0x10d39)
        || (0x10d40 <= n && n <= 0x10d49)
        || (0x11066 <= n && n <= 0x1106f)
        || (0x110f0 <= n && n <= 0x110f9)
        || (0x11136 <= n && n <= 0x1113f)
        || (0x111d0 <= n && n <= 0x111d9)
        || (0x112f0 <= n && n <= 0x112f9)
        || (0x11450 <= n && n <= 0x11459)
        || (0x114d0 <= n && n <= 0x114d9)
        || (0x11650 <= n && n <= 0x11659)
        || (0x116c0 <= n && n <= 0x116c9)
        || (0x116d0 <= n && n <= 0x116e3)
        || (0x11730 <= n && n <= 0x11739)
        || (0x118e0 <= n && n <= 0x118e9)
        || (0x11950 <= n && n <= 0x11959)
        || (0x11bf0 <= n && n <= 0x11bf9)
        || (0x11c50 <= n && n <= 0x11c59)
        || (0x11d50 <= n && n <= 0x11d59)
        || (0x11da0 <= n && n <= 0x11da9)
        || (0x11f50 <= n && n <= 0x11f59)
        || (0x16130 <= n && n <= 0x16139)
        || (0x16a60 <= n && n <= 0x16a69)
        || (0x16ac0 <= n && n <= 0x16ac9)
        || (0x16b50 <= n && n <= 0x16b59)
        || (0x16d70 <= n && n <= 0x16d79)
        || (0x1ccf0 <= n && n <= 0x1ccf9)
        || (0x1d7ce <= n && n <= 0x1d7ff)
        || (0x1e140 <= n && n <= 0x1e149)
        || (0x1e2f0 <= n && n <= 0x1e2f9)
        || (0x1e4f0 <= n && n <= 0x1e4f9)
        || (0x1e5f1 <= n && n <= 0x1e5fa)
        || (0x1e950 <= n && n <= 0x1e959)
        || (0x1fbf0 <= n && n <= 0x1fbf9)
}


/// The characters of `s`, in order.
pub fn to_chars(s: &str) -> (v: Vec<char>)
    ensures
        v@ == s@,
{
    broadcast use vstd::string::group_string_axioms;

    let mut v: Vec<char> = Vec::new();
    for c in it: s.chars()
        invariant
            v@ == it.seq().take(it.index() as int),
            it.seq() == s@,
    {
        v.push(c);
    }
    v
}

/// The view of an optional string
pub open spec fn opt_view(o: Option<String>) -> Option<Seq<char>> {
    match o {
        Some(s) => Some(s@),
        None => None,
    }
}

/// `String::push`.
#[verifier::external_body]
pub(crate) fn push_char(s: &mut String, c: char)
    ensures
        final(s)@ == old(s)@.push(c),
{
    s.push(c);
}

/// Appends the characters of `t` to `s`.
pub fn push_all(s: &mut String, t: &str)
    ensures
        final(s)@ == old(s)@ + t@,
{
    let chars = to_chars(t);
    let mut i: usize = 0;
    while i < chars.len()
        invariant
            i <= chars@.len(),
            chars@ == t@,
            s@ == old(s)@ + t@.take(i as int),
        decreases chars@.len() - i,
    {
        push_char(s, chars[i]);
        assert(t@.take(i + 1) =~= t@.take(i as int).push(t@[i as int]));
        i += 1;
    }
    assert(t@.take(i as int) =~= t@);
}

/// A new string made of `s[from..to]`.
pub fn string_of(s: &[char], from: usize, to: usize) -> (r: String)
    requires
        from <= to <= s@.len(),
    ensures
        r@ == s@.subrange(from as int, to as int),
{
    let mut r = String::new();
    let mut i = from;
    while i < to
        invariant
            from <= i <= to <= s@.len(),
            r@ == s@.subrange(from as int, i as int),
        decreases to - i,
    {
        push_char(&mut r, s[i]);
        assert(s@.subrange(from as int, i + 1) =~= s@.subrange(from as int, i as int).push(s@[i as int]));
        i += 1;
    }
    r
}

/// Whether the two strings hold the same characters.
pub fn str_eq(a: &str, b: &str) -> (r: bool)
    ensures
        r == (a@ == b@),
{
    let a = to_chars(a);
    let b = to_chars(b);
    slice_eq(a.as_slice(), b.as_slice())
}

/// Whether the two sequences of characters are equal.
pub fn slice_eq(a: &[char], b: &[char]) -> (r: bool)
    ensures
        r == (a@ == b@),
{
    if a.len() != b.len() {
        return false;
    }
    let mut i: usize = 0;
    while i < a.len()
        invariant
            a@.len() == b@.len(),
            i <= a@.len(),
            forall|j: int| 0 <= j < i ==> a@[j] == b@[j],
        decreases a@.len() - i,
    {
        if a[i] != b[i] {
            return false;
        }
        i += 1;
    }
    assert(a@ =~= b@);
    true
}

/// Whether `p` stands in `s` at position `i`.
pub fn occurs_at_exec(s: &[char], p: &[char], i: usize) -> (r: bool)
    ensures
        r == occurs_at(s@, p@, i as int),
{
    let n = s.len();
    if i > n || p.len() > n - i {
        return false;
    }
    let mut k: usize = 0;
    while k < p.len()
        invariant
            n == s@.len(),
            i + p@.len() <= s@.len(),
            k <= p@.len(),
            forall|j: int| 0 <= j < k ==> s@[i + j] == p@[j],
        decreases p@.len() - k,
    {
        if s[i + k] != p[k] {
            assert(s@.subrange(i as int, i + p@.len())[k as int] != p@[k as int]);
            return false;
        }
        k += 1;
    }
    assert(s@.subrange(i as int, i + p@.len()) =~= p@);
    true
}

/// Whether `s` starts with `p`.
pub fn starts_with(s: &[char], p: &[char]) -> (r: bool)
    ensures
        r == occurs_at(s@, p@, 0),
{
    occurs_at_exec(s, p, 0)
}

/// Whether `s` ends with `p`.
pub fn ends_with(s: &[char], p: &[char]) -> (r: bool)
    ensures
        r == (p@.len() <= s@.len() && occurs_at(s@, p@, s@.len() - p@.len())),
{
    if p.len() > s.len() {
        return false;
    }
    occurs_at_exec(s, p, s.len() - p.len())
}

/// The position of the first occurrence of `p` in `s`.
pub fn find(s: &[char], p: &[char]) -> (r: Option<usize>)
    ensures
        match r {
            Some(i) => first_occurrence(s@, p@) == Some(i as int),
            None => first_occurrence(s@, p@) is None,
        },
{
    let n = s.len();
    let mut i: usize = 0;
    while i < n
        invariant
            n == s@.len(),
            i <= n,
            forall|j: int| 0 <= j < i ==> !occurs_at(s@, p@, j),
        decreases n - i,
    {
        if occurs_at_exec(s, p, i) {
            proof {
                lemma_first_occurrence_is(s@, p@, i as int);
            }
            return Some(i);
        }
        i += 1;
    }
    if occurs_at_exec(s, p, n) {
        proof {
            lemma_first_occurrence_is(s@, p@, n as int);
        }
        return Some(n);
    }
    assert forall|j: int| !occurs_at(s@, p@, j) by {
        if occurs_at(s@, p@, j) {
            assert(j <= n);
            if j < n {
                assert(!occurs_at(s@, p@, j));
            }
        }
    }
    None
}

pub proof fn lemma_first_occurrence_is(s: Seq<char>, p: Seq<char>, i: int)
    requires
        occurs_at(s, p, i),
        forall|j: int| 0 <= j < i ==> !occurs_at(s, p, j),
    ensures
        first_occurrence(s, p) == Some(i),
{
    let c = choose|c: int| occurs_at(s, p, c) && forall|j: int| 0 <= j < c ==> !occurs_at(s, p, j);
    assert(occurs_at(s, p, i) && forall|j: int| 0 <= j < i ==> !occurs_at(s, p, j));
    if c < i {
        assert(!occurs_at(s, p, c));
    } else if c > i {
        assert(!occurs_at(s, p, i));
    }
}

/// Whether every character of `s[from..to]` is white space.
pub fn all_ws_exec(s: &[char], from: usize, to: usize) -> (r: bool)
    requires
        from <= to <= s@.len(),
    ensures
        r == all_ws(s@.subrange(from as int, to as int)),
{
    let mut i = from;
    while i < to
        invariant
            from <= i <= to <= s@.len(),
            forall|j: int| from <= j < i ==> is_ws(s@[j]),
        decreases to - i,
    {
        if !is_ws_char(s[i]) {
            assert(!is_ws(s@.subrange(from as int, to as int)[i - from]));
            return false;
        }
        i += 1;
    }
    assert forall|j: int| 0 <= j < to - from implies #[trigger] is_ws(s@.subrange(from as int, to as int)[j]) by {
        assert(is_ws(s@[from + j]));
    }
    true
}

/// Whether `s[from..to]` is a nonempty run of decimal digits.
pub fn is_number_exec(s: &[char], from: usize, to: usize) -> (r: bool)
    requires
        from <= to <= s@.len(),
    ensures
        r == is_number(s@.subrange(from as int, to as int)),
{
    if from == to {
        return false;
    }
    let mut i = from;
    while i < to
        invariant
            from <= i <= to <= s@.len(),
            forall|j: int| from <= j < i ==> is_digit(s@[j]),
        decreases to - i,
    {
        if !is_digit_char(s[i]) {
            assert(!is_digit(s@.subrange(from as int, to as int)[i - from]));
            return false;
        }
        i += 1;
    }
    assert forall|j: int| 0 <= j < to - from implies #[trigger] is_digit(s@.subrange(from as int, to as int)[j]) by {
        assert(is_digit(s@[from + j]));
    }
    true
}

/// Whether `s[from..to]` holds no line feed.
pub fn no_lf_exec(s: &[char], from: usize, to: usize) -> (r: bool)
    requires
        from <= to <= s@.len(),
    ensures
        r == no_lf(s@.subrange(from as int, to as int)),
{
    let mut i = from;
    while i < to
        invariant
            from <= i <= to <= s@.len(),
            forall|j: int| from <= j < i ==> is_any(s@[j]),
        decreases to - i,
    {
        if s[i] == '\n' {
            assert(!is_any(s@.subrange(from as int, to as int)[i - from]));
            return false;
        }
        i += 1;
    }
    assert forall|j: int| 0 <= j < to - from implies #[trigger] is_any(s@.subrange(from as int, to as int)[j]) by {
        assert(is_any(s@[from + j]));
    }
    true
}

/// Whether the character `c` stands in `s`.
pub fn has_char_exec(s: &[char], c: char) -> (r: bool)
    ensures
        r == has_char(s@, c),
{
    let mut i: usize = 0;
    while i < s.len()
        invariant
            i <= s@.len(),
            forall|j: int| 0 <= j < i ==> s@[j] != c,
        decreases s@.len() - i,
    {
        if s[i] == c {
            return true;
        }
        i += 1;
    }
    false
}

/// The number of white space characters at the start of `s`.
pub open spec fn leading_ws_count(s: Seq<char>) -> nat
    decreases s.len(),
{
    if s.len() > 0 && is_ws(s[0]) {
        1 + leading_ws_count(s.drop_first())
    } else {
        0
    }
}

/// The number of white space characters at the end of `s`.
pub open spec fn trailing_ws_count(s: Seq<char>) -> nat
    decreases s.len(),
{
    if s.len() > 0 && is_ws(s.last()) {
        1 + trailing_ws_count(s.drop_last())
    } else {
        0
    }
}

pub proof fn lemma_leading_ws(s: Seq<char>)
    ensures
        leading_ws_count(s) <= s.len(),
        trim_start(s) == s.skip(leading_ws_count(s) as int),
        forall|j: int| 0 <= j < leading_ws_count(s) ==> is_ws(#[trigger] s[j]),
        leading_ws_count(s) < s.len() ==> !is_ws(s[leading_ws_count(s) as int]),
    decreases s.len(),
{
    if s.len() > 0 && is_ws(s[0]) {
        lemma_leading_ws(s.drop_first());
        assert(s.drop_first().skip(leading_ws_count(s.drop_first()) as int) =~= s.skip(
            leading_ws_count(s) as int,
        ));
        assert forall|j: int| 0 <= j < leading_ws_count(s) implies is_ws(#[trigger] s[j]) by {
            if j > 0 {
                assert(s[j] == s.drop_first()[j - 1]);
            }
        }
    } else {
        assert(s.skip(0) =~= s);
    }
}

pub proof fn lemma_trailing_ws(s: Seq<char>)
    ensures
        trailing_ws_count(s) <= s.len(),
        trim_end(s) == s.take(s.len() - trailing_ws_count(s)),
        forall|j: int| s.len() - trailing_ws_count(s) <= j < s.len() ==> is_ws(#[trigger] s[j]),
        trailing_ws_count(s) < s.len() ==> !is_ws(s[s.len() - trailing_ws_count(s) - 1]),
    decreases s.len(),
{
    if s.len() > 0 && is_ws(s.last()) {
        lemma_trailing_ws(s.drop_last());
        assert(s.drop_last().take(s.drop_last().len() - trailing_ws_count(s.drop_last())) =~= s.take(
            s.len() - trailing_ws_count(s),
        ));
        assert forall|j: int| s.len() - trailing_ws_count(s) <= j < s.len() implies is_ws(#[trigger] s[j]) by {
            if j < s.len() - 1 {
                assert(s[j] == s.drop_last()[j]);
            }
        }
    } else {
        assert(s.take(s.len() as int) =~= s);
    }
}

/// `s[i..]` is all white space exactly when `i` is within the trailing white
/// space of `s`.
pub proof fn lemma_ws_suffix(s: Seq<char>, i: int)
    requires
        0 <= i <= s.len(),
    ensures
        all_ws(s.skip(i)) <==> i >= s.len() - trailing_ws_count(s),
{
    lemma_trailing_ws(s);
    let t = trailing_ws_count(s);
    if all_ws(s.skip(i)) && i < s.len() - t {
        let k = s.len() - t - 1;
        assert(s.skip(i)[k - i] == s[k]);
    }
    if i >= s.len() - t {
        assert forall|j: int| 0 <= j < s.skip(i).len() implies #[trigger] is_ws(s.skip(i)[j]) by {
            assert(s.skip(i)[j] == s[i + j]);
        }
    }
}

/// The number of white space characters at the start of `s[from..to]`.
pub fn leading_ws(s: &[char], from: usize, to: usize) -> (r: usize)
    requires
        from <= to <= s@.len(),
    ensures
        r == leading_ws_count(s@.subrange(from as int, to as int)),
        from + r <= to,
{
    let ghost t = s@.subrange(from as int, to as int);
    proof {
        lemma_leading_ws(t);
    }
    let mut i = from;
    while i < to && is_ws_char(s[i])
        invariant
            from <= i <= to <= s@.len(),
            t == s@.subrange(from as int, to as int),
            i - from <= leading_ws_count(t),
            forall|j: int| 0 <= j < leading_ws_count(t) ==> is_ws(#[trigger] t[j]),
            leading_ws_count(t) < t.len() ==> !is_ws(t[leading_ws_count(t) as int]),
            leading_ws_count(t) <= t.len(),
        decreases to - i,
    {
        assert(t[i - from] == s@[i as int]);
        i += 1;
    }
    if i < to {
        assert(t[i - from] == s@[i as int]);
    }
    i - from
}

/// The number of white space characters at the end of `s[from..to]`.
pub fn trailing_ws(s: &[char], from: usize, to: usize) -> (r: usize)
    requires
        from <= to <= s@.len(),
    ensures
        r == trailing_ws_count(s@.subrange(from as int, to as int)),
        from + r <= to,
{
    let ghost t = s@.subrange(from as int, to as int);
    proof {
        lemma_trailing_ws(t);
    }
    let mut i = to;
    while i > from && is_ws_char(s[i - 1])
        invariant
            from <= i <= to <= s@.len(),
            t == s@.subrange(from as int, to as int),
            to - i <= trailing_ws_count(t),
            forall|j: int| t.len() - trailing_ws_count(t) <= j < t.len() ==> is_ws(#[trigger] t[j]),
            trailing_ws_count(t) < t.len() ==> !is_ws(t[t.len() - trailing_ws_count(t) - 1]),
            trailing_ws_count(t) <= t.len(),
        decreases i - from,
    {
        assert(t[i - 1 - from] == s@[i - 1]);
        i -= 1;
    }
    if i > from {
        assert(t[i - 1 - from] == s@[i - 1]);
    }
    to - i
}

/// The position of the last occurrence of `c` in `s[..end]`.
pub fn rfind_char(s: &[char], c: char, end: usize) -> (r: Option<usize>)
    requires
        end <= s@.len(),
    ensures
        match r {
            Some(i) => i < end && s@[i as int] == c && forall|j: int| i < j < end ==> s@[j] != c,
            None => forall|j: int| 0 <= j < end ==> s@[j] != c,
        },
{
    let mut i = end;
    while i > 0
        invariant
            i <= end <= s@.len(),
            forall|j: int| i <= j < end ==> s@[j] != c,
        decreases i,
    {
        if s[i - 1] == c {
            return Some(i - 1);
        }
        i -= 1;
    }
    None
}

/// `s` is `a`, then `c`, then `b`, `b` not holding `c`: `a` is what's before
/// the last `c` and `b` what's after.
pub open spec fn split_at_last(s: Seq<char>, c: char, a: Seq<char>, b: Seq<char>) -> bool {
    s == a + seq![c] + b && !has_char(b, c)
}

/// `s[from..to]` trimmed: the bounds of the part without white space at
/// its start and its end
pub fn trim_bounds(s: &[char], from: usize, to: usize) -> (r: (usize, usize))
    requires
        from <= to <= s@.len(),
    ensures
        from <= r.0 <= r.1 <= to,
        s@.subrange(r.0 as int, r.1 as int) == trim(s@.subrange(from as int, to as int)),
{
    let ghost t = s@.subrange(from as int, to as int);
    let start = leading_ws(s, from, to);
    let start = from + start;
    let ghost u = s@.subrange(start as int, to as int);
    proof {
        lemma_leading_ws(t);
        assert(t.skip(leading_ws_count(t) as int) =~= u);
    }
    let end = trailing_ws(s, start, to);
    let end = to - end;
    proof {
        lemma_trailing_ws(u);
        assert(u.take(u.len() - trailing_ws_count(u)) =~= s@.subrange(start as int, end as int));
    }
    (start, end)
}

/// There's one way to split a sequence at its last `c`
pub proof fn lemma_split_at_last_unique(
    s: Seq<char>,
    c: char,
    a1: Seq<char>,
    b1: Seq<char>,
    a2: Seq<char>,
    b2: Seq<char>,
)
    requires
        split_at_last(s, c, a1, b1),
        split_at_last(s, c, a2, b2),
    ensures
        a1 == a2,
        b1 == b2,
{
    let k1 = a1.len() as int;
    let k2 = a2.len() as int;
    assert(s[k1] == c);
    assert(s[k2] == c);
    let t1 = a1 + seq![c];
    let t2 = a2 + seq![c];
    assert(s == t1 + b1);
    assert(s == t2 + b2);
    assert(s.len() == k2 + 1 + b2.len());
    assert(s.len() == k1 + 1 + b1.len());
    if k1 < k2 {
        assert(s[k2] == b1[k2 - t1.len()]);
        assert(has_char(b1, c));
    } else if k2 < k1 {
        assert(s[k1] == b2[k1 - t2.len()]);
        assert(has_char(b2, c));
    }
    assert(a1 =~= s.take(k1));
    assert(a2 =~= s.take(k2));
    assert(b1 =~= s.skip(k1 + 1));
    assert(b2 =~= s.skip(k2 + 1));
}

pub proof fn lemma_first_occurrence(s: Seq<char>, p: Seq<char>)
    ensures
        match first_occurrence(s, p) {
            Some(i) => occurs_at(s, p, i) && forall|j: int| 0 <= j < i ==> !occurs_at(s, p, j),
            None => forall|j: int| !occurs_at(s, p, j),
        },
{
    if exists|i: int| occurs_at(s, p, i) {
        let i = choose|i: int| occurs_at(s, p, i);
        lemma_min_occurrence_exists(s, p, i);
    }
}

proof fn lemma_min_occurrence_exists(s: Seq<char>, p: Seq<char>, i: int)
    requires
        occurs_at(s, p, i),
    ensures
        exists|k: int| occurs_at(s, p, k) && forall|j: int| 0 <= j < k ==> !occurs_at(s, p, j),
    decreases i,
{
    if exists|j: int| 0 <= j < i && occurs_at(s, p, j) {
        let j = choose|j: int| 0 <= j < i && occurs_at(s, p, j);
        lemma_min_occurrence_exists(s, p, j);
    }
}

/// The position of the first `c` in `s` at or after `from`
pub open spec fn first_char_from(s: Seq<char>, c: char, from: int) -> Option<int> {
    if exists|j: int| from <= j < s.len() && s[j] == c {
        Some(choose|j: int| from <= j < s.len() && s[j] == c && forall|k: int| from <= k < j ==> s[k] != c)
    } else {
        None
    }
}

pub proof fn lemma_first_char_from_is(s: Seq<char>, c: char, from: int, j: int)
    requires
        from <= j < s.len(),
        s[j] == c,
        forall|k: int| from <= k < j ==> s[k] != c,
    ensures
        first_char_from(s, c, from) == Some(j),
{
    let i = choose|i: int| from <= i < s.len() && s[i] == c && forall|k: int| from <= k < i ==> s[k] != c;
    assert(from <= j < s.len() && s[j] == c && forall|k: int| from <= k < j ==> s[k] != c);
    if i < j {
        assert(s[i] != c);
    } else if i > j {
        assert(s[j] != c);
    }
}

/// The position of the first `c` in `s` at or after `from`
pub fn find_char_from(s: &[char], c: char, from: usize) -> (r: Option<usize>)
    requires
        from <= s@.len(),
    ensures
        match r {
            Some(j) => first_char_from(s@, c, from as int) == Some(j as int),
            None => first_char_from(s@, c, from as int) is None,
        },
{
    let mut i = from;
    while i < s.len()
        invariant
            from <= i <= s@.len(),
            forall|k: int| from <= k < i ==> s@[k] != c,
        decreases s@.len() - i,
    {
        if s[i] == c {
            proof {
                lemma_first_char_from_is(s@, c, from as int, i as int);
            }
            return Some(i);
        }
        i += 1;
    }
    None
}

/// `s` without its leading spaces (only `' '`, not the other white space)
pub open spec fn trim_start_spaces(s: Seq<char>) -> Seq<char>
    decreases s.len(),
{
    if s.len() > 0 && s[0] == ' ' {
        trim_start_spaces(s.drop_first())
    } else {
        s
    }
}

/// The position in `s[from..]` after the leading spaces
pub fn skip_spaces(s: &[char], from: usize) -> (r: usize)
    requires
        from <= s@.len(),
    ensures
        from <= r <= s@.len(),
        s@.skip(r as int) == trim_start_spaces(s@.skip(from as int)),
{
    let mut i = from;
    while i < s.len() && s[i] == ' '
        invariant
            from <= i <= s@.len(),
            trim_start_spaces(s@.skip(i as int)) == trim_start_spaces(s@.skip(from as int)),
        decreases s@.len() - i,
    {
        assert(s@.skip(i as int).drop_first() =~= s@.skip(i + 1));
        i += 1;
    }
    i
}

pub proof fn lemma_first_char_from(s: Seq<char>, c: char, from: int)
    ensures
        match first_char_from(s, c, from) {
            Some(j) => from <= j < s.len() && s[j] == c && forall|k: int| from <= k < j ==> s[k] != c,
            None => forall|k: int| from <= k < s.len() ==> s[k] != c,
        },
{
    if exists|j: int| from <= j < s.len() && s[j] == c {
        let j = choose|j: int| from <= j < s.len() && s[j] == c;
        lemma_min_char_exists(s, c, from, j);
    }
}

proof fn lemma_min_char_exists(s: Seq<char>, c: char, from: int, j: int)
    requires
        from <= j < s.len(),
        s[j] == c,
    ensures
        exists|i: int| from <= i < s.len() && s[i] == c && forall|k: int| from <= k < i ==> s[k] != c,
    decreases j - from,
{
    if exists|k: int| from <= k < j && s[k] == c {
        let k = choose|k: int| from <= k < j && s[k] == c;
        lemma_min_char_exists(s, c, from, k);
    }
}

/// The lines of a text, as `str::lines` gives them: the text is split at
/// line feeds, a carriage return before a line feed is removed with it,
/// and a final line feed doesn't start an empty line
pub open spec fn text_lines(s: Seq<char>) -> Seq<Seq<char>>
    decreases s.len(),
{
    if s.len() == 0 {
        Seq::empty()
    } else {
        proof {
            lemma_first_char_from(s, '\n', 0);
        }
        match first_char_from(s, '\n', 0) {
            None => seq![s],
            Some(i) => {
                let piece = s.take(i);
                let piece = if piece.len() > 0 && piece.last() == '\r' {
                    piece.drop_last()
                } else {
                    piece
                };
                seq![piece] + text_lines(s.skip(i + 1))
            },
        }
    }
}

/// The lines of `s[from..]`
#[verifier::rlimit(40)]
fn lines_from(s: &[char], from: usize) -> (r: Vec<String>)
    requires
        from <= s@.len(),
    ensures
        r@.map_values(|l: String| l@) == text_lines(s@.skip(from as int)),
    decreases s@.len() - from,
{
    let n = s.len();
    let ghost t = s@.skip(from as int);
    if from == n {
        assert(t.len() == 0);
        let r: Vec<String> = Vec::new();
        assert(r@.map_values(|l: String| l@) =~= Seq::<Seq<char>>::empty());
        return r;
    }
    proof {
        lemma_first_char_from(s@, '\n', from as int);
        lemma_first_char_from(t, '\n', 0);
    }
    match find_char_from(s, '\n', from) {
        None => {
            proof {
                if first_char_from(t, '\n', 0) is Some {
                    let i = first_char_from(t, '\n', 0).unwrap();
                    assert(s@[from + i] == '\n');
                }
            }
            let mut r: Vec<String> = Vec::new();
            r.push(string_of(s, from, n));
            assert(s@.subrange(from as int, n as int) =~= t);
            assert(r@.map_values(|l: String| l@) =~= seq![t]);
            r
        },
        Some(i) => {
            proof {
                assert(t[i - from] == '\n');
                assert forall|k: int| 0 <= k < i - from implies t[k] != '\n' by {
                    assert(t[k] == s@[from + k]);
                }
                lemma_first_char_from_is(t, '\n', 0, i - from);
            }
            let end = if i > from && s[i - 1] == '\r' {
                i - 1
            } else {
                i
            };
            let mut r: Vec<String> = Vec::new();
            r.push(string_of(s, from, end));
            let mut rest = lines_from(s, i + 1);
            let ghost head = r@;
            let ghost tail = rest@;
            r.append(&mut rest);
            proof {
                assert(t.skip(i - from + 1) =~= s@.skip(i + 1));
                let piece = t.take(i - from);
                if i > from && s@[i - 1] == '\r' {
                    assert(piece.drop_last() =~= s@.subrange(from as int, end as int));
                } else {
                    assert(piece =~= s@.subrange(from as int, end as int));
                }
                assert(r@ == head + tail);
                assert(r@.map_values(|l: String| l@) =~= head.map_values(|l: String| l@)
                    + tail.map_values(|l: String| l@));
            }
            r
        },
    }
}

/// The lines of a text, see [`text_lines`]
pub fn split_lines(s: &str) -> (r: Vec<String>)
    ensures
        r@.map_values(|l: String| l@) == text_lines(s@),
{
    let chars = to_chars(s);
    assert(chars@.skip(0) =~= chars@);
    lines_from(chars.as_slice(), 0)
}

/// The items in reverse order
pub fn reversed<T>(v: Vec<T>) -> (r: Vec<T>)
    ensures
        r@ == v@.reverse(),
{
    let ghost orig = v@;
    let mut v = v;
    let mut r: Vec<T> = Vec::new();
    while v.len() > 0
        invariant
            v@ == orig.take(v@.len() as int),
            v@.len() <= orig.len(),
            r@ == orig.skip(v@.len() as int).reverse(),
        decreases v@.len(),
    {
        let ghost k = v@.len();
        let x = v.pop().unwrap();
        assert(orig.skip(k - 1) =~= seq![orig[k - 1]] + orig.skip(k as int));
        assert(orig.skip(k - 1).reverse() =~= orig.skip(k as int).reverse().push(orig[k - 1]));
        r.push(x);
        assert(orig.take(k - 1) =~= orig.take(k as int).drop_last());
    }
    assert(orig.skip(0) =~= orig);
    r
}

} // verus!
