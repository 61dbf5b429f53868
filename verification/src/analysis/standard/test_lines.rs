//! Recognition of the lines of test results, like
//! "test wrap::wrap_tests::check_space_removing ... ok".
//!
//! A test result line is made of an optional `test` word followed by white
//! space, the key of the test (the shortest possible), an optional
//! " - should panic" and an optional " - compile" part (each followed by
//! optional white space), then white space, any three characters, white
//! space, and the outcome.
use vstd::prelude::*;
use crate::text::{lemma_ws_suffix, is_any, starts_with, is_ws_char, string_of, all_ws, all_ws_exec, is_ws, leading_ws, leading_ws_count, lemma_trailing_ws, no_lf, no_lf_exec, occurs_at, occurs_at_exec, to_chars, trailing_ws, trailing_ws_count};

verus! {

/// The literal marking tests which should panic
pub open spec fn should_panic_lit() -> Seq<char> {
    " - should panic"@
}

/// The literal marking compile tests
pub open spec fn compile_lit() -> Seq<char> {
    " - compile"@
}

/// `x` is the literal followed by white space
pub open spec fn is_group(x: Seq<char>, lit: Seq<char>) -> bool {
    occurs_at(x, lit, 0) && all_ws(x.skip(lit.len() as int))
}

/// `q` is made of the optional should-panic part then the optional compile part
pub open spec fn opt_groups(q: Seq<char>) -> bool {
    ||| q.len() == 0
    ||| is_group(q, should_panic_lit())
    ||| is_group(q, compile_lit())
    ||| exists|j: int|
        0 <= j <= q.len() && is_group(q.take(j), should_panic_lit()) && is_group(
            q.skip(j),
            compile_lit(),
        )
}

/// `r` is split as the optional parts (`r[..q]`), white space (`r[q..p]`),
/// three characters (`r[p..p + 3]`) and white space (the rest, nonempty when
/// `final_ws` is true)
pub open spec fn tail_split(r: Seq<char>, q: int, p: int, final_ws: bool) -> bool {
    &&& 0 <= q < p
    &&& p + 3 <= r.len()
    &&& opt_groups(r.take(q))
    &&& all_ws(r.subrange(q, p))
    &&& no_lf(r.subrange(p, p + 3))
    &&& all_ws(r.skip(p + 3))
    &&& final_ws ==> p + 3 < r.len()
}

/// `r` is what may follow the key of a test
pub open spec fn test_tail(r: Seq<char>, final_ws: bool) -> bool {
    exists|q: int, p: int| tail_split(r, q, p, final_ws)
}

/// What may follow the key: for a test name (`outcome` is None) the tail
/// with optional final white space, for a test result the tail with
/// nonempty final white space then the outcome
pub open spec fn tail_matches(r: Seq<char>, outcome: Option<Seq<char>>) -> bool {
    match outcome {
        None => test_tail(r, false),
        Some(o) => r.len() >= o.len() && r.skip(r.len() - o.len()) == o && test_tail(
            r.take(r.len() - o.len()),
            true,
        ),
    }
}

/// The key can end at `k` when it starts at `start`
pub open spec fn key_end_ok(s: Seq<char>, start: int, k: int, outcome: Option<Seq<char>>) -> bool {
    start < k <= s.len() && no_lf(s.subrange(start, k)) && tail_matches(s.skip(k), outcome)
}

/// The end of the shortest key starting at `start`
pub open spec fn min_key_end(s: Seq<char>, start: int, outcome: Option<Seq<char>>) -> Option<int> {
    if exists|k: int| key_end_ok(s, start, k, outcome) {
        Some(
            choose|k: int|
                key_end_ok(s, start, k, outcome) && forall|j: int|
                    start < j < k ==> !key_end_ok(s, start, j, outcome),
        )
    } else {
        None
    }
}

/// The length of the white space after a leading "test", which may be
/// skipped before the key (0 when there's no such prefix)
pub open spec fn test_prefix_ws(s: Seq<char>) -> nat {
    if occurs_at(s, "test"@, 0) {
        leading_ws_count(s.skip(4))
    } else {
        0
    }
}

/// The key when the skipped prefix is "test" and `m` white space
/// characters, trying shorter white space when there's no key, and
/// finally no prefix
pub open spec fn key_from_prefix(s: Seq<char>, m: nat, outcome: Option<Seq<char>>) -> Option<
    Seq<char>,
>
    decreases m,
{
    let start: int = if m == 0 {
        0
    } else {
        (4 + m) as int
    };
    match min_key_end(s, start, outcome) {
        Some(k) => Some(s.subrange(start, k)),
        None => if m == 0 {
            None
        } else {
            key_from_prefix(s, (m - 1) as nat, outcome)
        },
    }
}

/// The key of a test line
pub open spec fn test_key(s: Seq<char>, outcome: Option<Seq<char>>) -> Option<Seq<char>> {
    key_from_prefix(s, test_prefix_ws(s), outcome)
}

proof fn lemma_literals()
    ensures
        should_panic_lit().len() >= 2,
        should_panic_lit()[1] == '-',
        !is_ws(should_panic_lit().last()),
        compile_lit().len() >= 2,
        compile_lit()[1] == '-',
        !is_ws(compile_lit().last()),
        "test"@.len() == 4,
{
    reveal_strlit(" - should panic");
    reveal_strlit(" - compile");
    reveal_strlit("test");
}

/// Removing white space from the end of a group keeps a group, when what's
/// left ends with something else than white space
proof fn lemma_group_strip(b: Seq<char>, w: Seq<char>, lit: Seq<char>)
    requires
        is_group(b + w, lit),
        all_ws(w),
        b.len() == 0 || !is_ws(b.last()),
        lit.len() >= 2,
        lit[1] == '-',
        !is_ws(lit.last()),
    ensures
        b.len() > 0,
        is_group(b, lit),
{
    let x = b + w;
    if b.len() == 0 {
        assert(x[1] == lit[1]);
        assert(x[1] == w[1]);
        assert(is_ws(w[1]));
        assert(!is_ws('-')) by {
            assert(('-' as u32) == 0x2d);
        }
    }
    if b.len() < lit.len() {
        let k = lit.len() - 1;
        assert(x[k] == lit[k]);
        assert(x[k] == w[k - b.len()]);
    }
    assert(b.take(lit.len() as int) =~= x.take(lit.len() as int));
    assert forall|i: int| 0 <= i < b.skip(lit.len() as int).len() implies #[trigger] is_ws(
        b.skip(lit.len() as int)[i],
    ) by {
        assert(b.skip(lit.len() as int)[i] == x.skip(lit.len() as int)[i]);
    }
}

/// Removing white space from the end of the optional parts keeps optional
/// parts, when what's left ends with something else than white space
proof fn lemma_opt_groups_strip(b: Seq<char>, w: Seq<char>)
    requires
        opt_groups(b + w),
        all_ws(w),
        b.len() == 0 || !is_ws(b.last()),
    ensures
        opt_groups(b),
{
    lemma_literals();
    let x = b + w;
    if x.len() == 0 {
        assert(b.len() == 0);
    } else if is_group(x, should_panic_lit()) {
        lemma_group_strip(b, w, should_panic_lit());
    } else if is_group(x, compile_lit()) {
        lemma_group_strip(b, w, compile_lit());
    } else {
        let j = choose|j: int|
            0 <= j <= x.len() && is_group(x.take(j), should_panic_lit()) && is_group(
                x.skip(j),
                compile_lit(),
            );
        // the compile part starts with " -", so it starts in `b`
        assert(x.skip(j)[1] == '-');
        if j + 1 >= b.len() {
            assert(x[j + 1] == w[j + 1 - b.len()]);
            assert(!is_ws('-')) by {
                assert(('-' as u32) == 0x2d);
            }
            assert(false);
        }
        assert(x.skip(j) =~= b.skip(j) + w);
        assert(b.skip(j).last() == b.last());
        lemma_group_strip(b.skip(j), w, compile_lit());
        assert(x.take(j) =~= b.take(j));
    }
}

/// There's a split of `r` with the three characters at `p`
pub open spec fn tail_at(r: Seq<char>, p: int, final_ws: bool) -> bool {
    exists|q: int| tail_split(r, q, p, final_ws)
}

/// The view of an optional outcome
pub open spec fn outcome_view(o: Option<&[char]>) -> Option<Seq<char>> {
    match o {
        Some(v) => Some(v@),
        None => None,
    }
}

/// With the three characters at `p`, the optional parts are what's before
/// the white space preceding them
proof fn lemma_tail_at(r: Seq<char>, p: int, fw: bool)
    requires
        0 <= p,
        p + 3 <= r.len(),
    ensures
        tail_at(r, p, fw) <==> (no_lf(r.subrange(p, p + 3)) && all_ws(r.skip(p + 3)) && (fw ==> p
            + 3 < r.len()) && trailing_ws_count(r.take(p)) >= 1 && opt_groups(
            r.take(p - trailing_ws_count(r.take(p))),
        )),
{
    let b = r.take(p);
    let u = trailing_ws_count(b);
    lemma_trailing_ws(b);
    if tail_at(r, p, fw) {
        let q = choose|q: int| tail_split(r, q, p, fw);
        assert(r.subrange(q, p) =~= b.skip(q));
        lemma_ws_suffix(b, q);
        let bb = r.take(p - u);
        let w = r.subrange(p - u, q);
        assert(r.take(q) =~= bb + w);
        assert forall|j: int| 0 <= j < w.len() implies #[trigger] is_ws(w[j]) by {
            assert(w[j] == b[p - u + j]);
        }
        if bb.len() > 0 {
            assert(bb.last() == b[p - u - 1]);
        }
        lemma_opt_groups_strip(bb, w);
    }
    if no_lf(r.subrange(p, p + 3)) && all_ws(r.skip(p + 3)) && (fw ==> p + 3 < r.len()) && u >= 1
        && opt_groups(r.take(p - u)) {
        let q = p - u;
        assert(r.subrange(q, p) =~= b.skip(q));
        lemma_ws_suffix(b, q);
        assert(tail_split(r, q, p, fw));
    }
}

/// Whether `s[from..to]` is the literal followed by white space
fn is_group_exec(s: &[char], from: usize, to: usize, lit: &[char]) -> (r: bool)
    requires
        from <= to <= s@.len(),
    ensures
        r == is_group(s@.subrange(from as int, to as int), lit@),
{
    let ghost x = s@.subrange(from as int, to as int);
    if lit.len() > to - from {
        return false;
    }
    let at = occurs_at_exec(s, lit, from);
    assert(x.subrange(0, lit@.len() as int) =~= s@.subrange(from as int, from + lit@.len()));
    if !at {
        return false;
    }
    let w = all_ws_exec(s, from + lit.len(), to);
    assert(x.skip(lit@.len() as int) =~= s@.subrange(from + lit@.len(), to as int));
    w
}

/// Whether `s[from..to]` is made of the optional parts
fn opt_groups_exec(s: &[char], from: usize, to: usize, sp: &[char], cp: &[char]) -> (r: bool)
    requires
        from <= to <= s@.len(),
        sp@ == should_panic_lit(),
        cp@ == compile_lit(),
    ensures
        r == opt_groups(s@.subrange(from as int, to as int)),
{
    let ghost x = s@.subrange(from as int, to as int);
    if from == to {
        return true;
    }
    if is_group_exec(s, from, to, sp) || is_group_exec(s, from, to, cp) {
        return true;
    }
    let n = sp.len();
    if n > to - from || !occurs_at_exec(s, sp, from) {
        assert forall|j: int| 0 <= j <= x.len() implies !(is_group(x.take(j), should_panic_lit())
            && is_group(x.skip(j), compile_lit())) by {
            if is_group(x.take(j), should_panic_lit()) {
                assert(x.subrange(0, n as int) =~= x.take(j).subrange(0, n as int));
                assert(s@.subrange(from as int, from + n) =~= x.subrange(0, n as int));
            }
        }
        return false;
    }
    assert(s@.subrange(from as int, from + n) =~= x.subrange(0, n as int));
    let mut j = from + n;
    loop
        invariant
            from + n <= j <= to <= s@.len(),
            n == sp@.len(),
            x == s@.subrange(from as int, to as int),
            sp@ == should_panic_lit(),
            cp@ == compile_lit(),
            occurs_at(x, sp@, 0),
            x.len() > 0,
            !is_group(x, should_panic_lit()),
            !is_group(x, compile_lit()),
            all_ws(s@.subrange(from + n, j as int)),
            forall|i: int|
                0 <= i < j - from ==> !(is_group(x.take(i), should_panic_lit()) && is_group(
                    #[trigger] x.skip(i),
                    compile_lit(),
                )),
        decreases to - j,
    {
        let g = is_group_exec(s, j, to, cp);
        assert(x.skip(j - from) =~= s@.subrange(j as int, to as int));
        if g {
            assert(x.take(j - from).subrange(0, n as int) =~= x.subrange(0, n as int));
            assert(x.take(j - from).skip(n as int) =~= s@.subrange(from + n, j as int));
            assert(is_group(x.take(j - from), should_panic_lit()));
            return true;
        }
        if j == to || !is_ws_char(s[j]) {
            assert forall|i: int| 0 <= i <= x.len() implies !(is_group(
                x.take(i),
                should_panic_lit(),
            ) && is_group(#[trigger] x.skip(i), compile_lit())) by {
                if i > j - from && is_group(x.take(i), should_panic_lit()) {
                    assert(x.take(i).skip(n as int)[j - from - n] == s@[j as int]);
                }
                if i == j - from {
                    assert(!is_group(x.skip(i), compile_lit()));
                }
            }
            return false;
        }
        assert(s@.subrange(from + n, j + 1) =~= s@.subrange(from + n, j as int).push(s@[j as int]));
        j += 1;
    }
}

/// Whether `s[from..to]` has a split with the three characters at `p`,
/// `s[p + 3..to]` being white space
fn tail_at_exec(
    s: &[char],
    from: usize,
    to: usize,
    p: usize,
    fw: bool,
    sp: &[char],
    cp: &[char],
) -> (r: bool)
    requires
        from <= p,
        p + 3 <= to <= s@.len(),
        all_ws(s@.subrange(p + 3, to as int)),
        fw ==> p + 3 < to,
        sp@ == should_panic_lit(),
        cp@ == compile_lit(),
    ensures
        r == tail_at(s@.subrange(from as int, to as int), p - from, fw),
{
    let ghost x = s@.subrange(from as int, to as int);
    let lf = no_lf_exec(s, p, p + 3);
    let u = trailing_ws(s, from, p);
    proof {
        assert(x.subrange(p - from, p - from + 3) =~= s@.subrange(p as int, p + 3));
        assert(x.take(p - from) =~= s@.subrange(from as int, p as int));
        assert(x.skip(p - from + 3) =~= s@.subrange(p + 3, to as int));
        lemma_tail_at(x, p - from, fw);
    }
    if !lf || u == 0 {
        return false;
    }
    let g = opt_groups_exec(s, from, p - u, sp, cp);
    assert(x.take(p - from - u) =~= s@.subrange(from as int, p - u));
    g
}

/// Whether `s[from..to]` is what may follow the key
fn test_tail_exec(s: &[char], from: usize, to: usize, fw: bool, sp: &[char], cp: &[char]) -> (r:
    bool)
    requires
        from <= to <= s@.len(),
        sp@ == should_panic_lit(),
        cp@ == compile_lit(),
    ensures
        r == test_tail(s@.subrange(from as int, to as int), fw),
{
    let ghost x = s@.subrange(from as int, to as int);
    if to - from < 4 {
        assert forall|q: int, p: int| !tail_split(x, q, p, fw) by {}
        return false;
    }
    let t = trailing_ws(s, from, to);
    let hi = if fw {
        to - 1
    } else {
        to
    };
    let mut e = if to - t >= from + 4 {
        to - t
    } else {
        from + 4
    };
    proof {
        assert forall|pp: int| pp + 3 < e - from implies !#[trigger] tail_at(x, pp, fw) by {
            if tail_at(x, pp, fw) {
                let q = choose|q: int| tail_split(x, q, pp, fw);
                lemma_ws_suffix(x, pp + 3);
            }
        }
    }
    if e > hi {
        assert forall|q: int, p: int| !tail_split(x, q, p, fw) by {
            if tail_split(x, q, p, fw) {
                assert(tail_at(x, p, fw));
            }
        }
        return false;
    }
    loop
        invariant
            from + 4 <= e <= hi <= to <= s@.len(),
            to - t <= e,
            t == trailing_ws_count(x),
            x == s@.subrange(from as int, to as int),
            hi == (if fw { to - 1 } else { to as int }),
            sp@ == should_panic_lit(),
            cp@ == compile_lit(),
            forall|pp: int| pp + 3 < e - from ==> !#[trigger] tail_at(x, pp, fw),
        decreases hi - e,
    {
        proof {
            lemma_ws_suffix(x, e - from);
            assert(x.skip(e - from) =~= s@.subrange(e as int, to as int));
        }
        if tail_at_exec(s, from, to, e - 3, fw, sp, cp) {
            proof {
                let pp = e - 3 - from;
                let q = choose|q: int| tail_split(x, q, pp, fw);
                assert(tail_split(x, q, pp, fw));
            }
            return true;
        }
        if e >= hi {
            assert forall|q: int, p: int| !tail_split(x, q, p, fw) by {
                if tail_split(x, q, p, fw) {
                    assert(tail_at(x, p, fw));
                }
            }
            return false;
        }
        e += 1;
    }
}

/// Whether `s[k..]` may follow the key
fn tail_matches_exec(
    s: &[char],
    k: usize,
    outcome: Option<&[char]>,
    sp: &[char],
    cp: &[char],
) -> (r: bool)
    requires
        k <= s@.len(),
        sp@ == should_panic_lit(),
        cp@ == compile_lit(),
    ensures
        r == tail_matches(s@.skip(k as int), outcome_view(outcome)),
{
    let n = s.len();
    let ghost x = s@.skip(k as int);
    assert(x =~= s@.subrange(k as int, n as int));
    match outcome {
        None => test_tail_exec(s, k, n, false, sp, cp),
        Some(o) => {
            if o.len() > n - k {
                return false;
            }
            let end = n - o.len();
            let at = occurs_at_exec(s, o, end);
            assert(x.skip(x.len() - o@.len()) =~= s@.subrange(end as int, n as int));
            assert(x.take(x.len() - o@.len()) =~= s@.subrange(k as int, end as int));
            if !at {
                return false;
            }
            test_tail_exec(s, k, end, true, sp, cp)
        },
    }
}

proof fn lemma_min_key_end_is(s: Seq<char>, start: int, o: Option<Seq<char>>, k: int)
    requires
        key_end_ok(s, start, k, o),
        forall|j: int| start < j < k ==> !key_end_ok(s, start, j, o),
    ensures
        min_key_end(s, start, o) == Some(k),
{
    let c = choose|c: int|
        key_end_ok(s, start, c, o) && forall|j: int| start < j < c ==> !key_end_ok(s, start, j, o);
    assert(key_end_ok(s, start, k, o) && forall|j: int|
        start < j < k ==> !key_end_ok(s, start, j, o));
    if c < k {
        assert(!key_end_ok(s, start, c, o));
    } else if c > k {
        assert(!key_end_ok(s, start, k, o));
    }
}

/// The end of the shortest key starting at `start`
fn min_key_end_exec(
    s: &[char],
    start: usize,
    outcome: Option<&[char]>,
    sp: &[char],
    cp: &[char],
) -> (r: Option<usize>)
    requires
        start <= s@.len(),
        sp@ == should_panic_lit(),
        cp@ == compile_lit(),
    ensures
        match r {
            Some(k) => start < k <= s@.len() && min_key_end(s@, start as int, outcome_view(outcome))
                == Some(k as int),
            None => min_key_end(s@, start as int, outcome_view(outcome)) is None,
        },
{
    let ghost o = outcome_view(outcome);
    let n = s.len();
    if start == n {
        assert forall|k: int| !key_end_ok(s@, start as int, k, o) by {}
        return None;
    }
    let mut k = start + 1;
    loop
        invariant
            start < k <= n,
            n == s@.len(),
            o == outcome_view(outcome),
            sp@ == should_panic_lit(),
            cp@ == compile_lit(),
            no_lf(s@.subrange(start as int, k - 1)),
            forall|j: int| start < j < k ==> !key_end_ok(s@, start as int, j, o),
        decreases n - k,
    {
        if s[k - 1] == '\n' {
            assert forall|j: int| !key_end_ok(s@, start as int, j, o) by {
                if j >= k && j <= n {
                    assert(!is_any(s@.subrange(start as int, j)[k - 1 - start]));
                }
            }
            return None;
        }
        assert(no_lf(s@.subrange(start as int, k as int))) by {
            assert forall|i: int| 0 <= i < k - start implies #[trigger] is_any(
                s@.subrange(start as int, k as int)[i],
            ) by {
                if i < k - 1 - start {
                    assert(s@.subrange(start as int, k as int)[i] == s@.subrange(
                        start as int,
                        k - 1,
                    )[i]);
                }
            }
        }
        if tail_matches_exec(s, k, outcome, sp, cp) {
            proof {
                lemma_min_key_end_is(s@, start as int, o, k as int);
            }
            return Some(k);
        }
        if k == n {
            assert forall|j: int| !key_end_ok(s@, start as int, j, o) by {}
            return None;
        }
        k += 1;
    }
}

/// The position of the key of a test line, for the given outcome
fn test_key_exec(s: &[char], outcome: Option<&[char]>) -> (r: Option<(usize, usize)>)
    ensures
        match r {
            Some((a, b)) => a <= b <= s@.len() && test_key(s@, outcome_view(outcome)) == Some(
                s@.subrange(a as int, b as int),
            ),
            None => test_key(s@, outcome_view(outcome)) is None,
        },
{
    let ghost o = outcome_view(outcome);
    let sp = to_chars(" - should panic");
    let cp = to_chars(" - compile");
    let test = to_chars("test");
    proof {
        lemma_literals();
    }
    let n = s.len();
    let big_m = if starts_with(s, test.as_slice()) {
        let w = leading_ws(s, 4, n);
        assert(s@.skip(4) =~= s@.subrange(4, n as int));
        w
    } else {
        0
    };
    assert(big_m == test_prefix_ws(s@));
    let mut m = big_m;
    loop
        invariant
            m <= big_m,
            big_m == test_prefix_ws(s@),
            big_m > 0 ==> 4 + big_m <= n,
            n == s@.len(),
            o == outcome_view(outcome),
            sp@ == should_panic_lit(),
            cp@ == compile_lit(),
            test_key(s@, o) == key_from_prefix(s@, m as nat, o),
        decreases m,
    {
        let start = if m == 0 {
            0
        } else {
            4 + m
        };
        match min_key_end_exec(s, start, outcome, sp.as_slice(), cp.as_slice()) {
            Some(k) => {
                assert(key_from_prefix(s@, m as nat, o) == Some(s@.subrange(start as int, k as int)));
                return Some((start, k));
            },
            None => {
                if m == 0 {
                    return None;
                }
                m -= 1;
            },
        }
    }
}

/// The key and outcome of a test result line, for example
/// "test wrap::wrap_tests::check_space_removing ... ok" or
/// "test src/mode.rs - mode::Mode::new (line 121) - compile ... FAILED"
/// (the " - compile" and " - should panic" parts aren't in the key)
pub open spec fn spec_as_test_result(s: Seq<char>) -> Option<(Seq<char>, bool)> {
    match test_key(s, Some("ok"@)) {
        Some(k) => Some((k, true)),
        None => match test_key(s, Some("FAILED"@)) {
            Some(k) => Some((k, false)),
            None => None,
        },
    }
}

/// Recognizes the non detailed result of a test, returning its key and
/// whether it passed
pub fn as_test_result(s: &str) -> (r: Option<(String, bool)>)
    ensures
        match r {
            Some((k, b)) => spec_as_test_result(s@) == Some((k@, b)),
            None => spec_as_test_result(s@) is None,
        },
{
    let chars = to_chars(s);
    let ok = to_chars("ok");
    match test_key_exec(chars.as_slice(), Some(ok.as_slice())) {
        Some((a, b)) => Some((string_of(chars.as_slice(), a, b), true)),
        None => {
            let failed = to_chars("FAILED");
            match test_key_exec(chars.as_slice(), Some(failed.as_slice())) {
                Some((a, b)) => Some((string_of(chars.as_slice(), a, b), false)),
                None => None,
            }
        },
    }
}

/// Recognizes a test line without its outcome (which, in styled output,
/// comes in another string), returning its key
pub fn as_test_name(s: &str) -> (r: Option<String>)
    ensures
        match r {
            Some(k) => test_key(s@, None) == Some(k@),
            None => test_key(s@, None) is None,
        },
{
    let chars = to_chars(s);
    match test_key_exec(chars.as_slice(), None) {
        Some((a, b)) => Some(string_of(chars.as_slice(), a, b)),
        None => None,
    }
}

} // verus!
