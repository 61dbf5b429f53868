//! The list of what a job watches, relative to the directories of the
//! package and of the workspace.
use vstd::prelude::*;
use crate::report::strings_view;
use crate::text::{push_all, str_eq};

verus! {

/// What is watched by default: the manifest, the build script, and the
/// usual source directories
pub open spec fn default_watches() -> Seq<Seq<char>> {
    seq!["Cargo.toml"@, "src"@, "tests"@, "benches"@, "examples"@, "build.rs"@]
}

/// The watches `w`, followed by each of `d` which isn't already there, in
/// the order of `d`
pub open spec fn add_missing(w: Seq<Seq<char>>, d: Seq<Seq<char>>) -> Seq<Seq<char>>
    decreases d.len(),
{
    if d.len() == 0 {
        w
    } else {
        let r = add_missing(w, d.drop_last());
        if r.contains(d.last()) {
            r
        } else {
            r.push(d.last())
        }
    }
}

/// The watches of a job: its own list, or else the one of the settings,
/// then, when the default watches are added, each default watch which isn't
/// already there
pub open spec fn spec_watches(
    job_watch: Option<Seq<Seq<char>>>,
    settings_watch: Seq<Seq<char>>,
    add_default: bool,
) -> Seq<Seq<char>> {
    let base = match job_watch {
        Some(w) => w,
        None => settings_watch,
    };
    if add_default {
        add_missing(base, default_watches())
    } else {
        base
    }
}

/// Adding watches keeps what was watched before, first and in its order,
/// and leaves every added watch in the list
pub proof fn lemma_add_missing_keeps(w: Seq<Seq<char>>, d: Seq<Seq<char>>)
    ensures
        add_missing(w, d).len() >= w.len(),
        add_missing(w, d).take(w.len() as int) == w,
        forall|i: int| 0 <= i < d.len() ==> add_missing(w, d).contains(#[trigger] d[i]),
    decreases d.len(),
{
    if d.len() > 0 {
        lemma_add_missing_keeps(w, d.drop_last());
        let r = add_missing(w, d.drop_last());
        assert forall|i: int| 0 <= i < d.len() implies add_missing(w, d).contains(#[trigger] d[i]) by {
            if i < d.len() - 1 {
                assert(d.drop_last()[i] == d[i]);
                assert(r.contains(d[i]));
                if !r.contains(d.last()) {
                    let k = choose|k: int| 0 <= k < r.len() && r[k] == d[i];
                    assert(r.push(d.last())[k] == d[i]);
                }
            } else {
                if !r.contains(d.last()) {
                    assert(r.push(d.last())[r.len() as int] == d.last());
                }
            }
        }
        if !r.contains(d.last()) {
            assert(r.push(d.last()).take(w.len() as int) =~= r.take(w.len() as int));
        }
    }
}

/// The paths `p`, followed by each path of `c` which exists (as `e` tells)
/// and isn't already there, in the order of `c`
pub open spec fn add_existing(p: Seq<Seq<char>>, c: Seq<Seq<char>>, e: Seq<bool>) -> Seq<Seq<char>>
    decreases c.len(),
{
    if c.len() == 0 || e.len() != c.len() {
        p
    } else {
        let r = add_existing(p, c.drop_last(), e.drop_last());
        if e.last() && !r.contains(c.last()) {
            r.push(c.last())
        } else {
            r
        }
    }
}

/// Add to the paths to watch each candidate path which exists and isn't
/// already there, in order; `exists` tells, for each candidate, whether
/// it exists
pub fn add_existing_paths(paths: &mut Vec<String>, candidates: &Vec<String>, exists: &Vec<bool>)
    requires
        candidates@.len() == exists@.len(),
    ensures
        strings_view(final(paths)@) == add_existing(strings_view(old(paths)@), strings_view(candidates@), exists@),
{
    let ghost start = strings_view(paths@);
    let ghost cv = strings_view(candidates@);
    let mut i: usize = 0;
    while i < candidates.len()
        invariant
            i <= candidates@.len() == exists@.len(),
            cv == strings_view(candidates@),
            strings_view(paths@) == add_existing(start, cv.take(i as int), exists@.take(i as int)),
        decreases candidates@.len() - i,
    {
        assert(cv.take(i + 1).drop_last() =~= cv.take(i as int));
        assert(exists@.take(i + 1).drop_last() =~= exists@.take(i as int));
        if exists[i] && !contains_str(paths, candidates[i].as_str()) {
            let ghost before = paths@;
            paths.push(candidates[i].clone());
            assert(strings_view(paths@) =~= strings_view(before).push(candidates@[i as int]@));
        }
        i += 1;
    }
    assert(cv.take(i as int) =~= cv);
    assert(exists@.take(i as int) =~= exists@);
}

/// What adding watches adds comes from the added list, and wasn't
/// already watched
pub proof fn lemma_add_missing_new(w: Seq<Seq<char>>, d: Seq<Seq<char>>)
    ensures
        forall|i: int| w.len() <= i < add_missing(w, d).len() ==> d.contains(
            #[trigger] add_missing(w, d)[i],
        ) && !w.contains(add_missing(w, d)[i]),
    decreases d.len(),
{
    if d.len() > 0 {
        lemma_add_missing_new(w, d.drop_last());
        lemma_add_missing_keeps(w, d.drop_last());
        let r = add_missing(w, d.drop_last());
        assert forall|i: int| w.len() <= i < add_missing(w, d).len() implies d.contains(
            #[trigger] add_missing(w, d)[i],
        ) && !w.contains(add_missing(w, d)[i]) by {
            if i < r.len() {
                assert(add_missing(w, d)[i] == r[i]);
                let k = choose|k: int| 0 <= k < d.drop_last().len() && d.drop_last()[k] == r[i];
                assert(d[k] == r[i]);
            } else {
                assert(add_missing(w, d)[i] == d.last());
                assert(d[d.len() - 1] == d.last());
                if w.contains(d.last()) {
                    let k = choose|k: int| 0 <= k < w.len() && w[k] == d.last();
                    assert(r.take(w.len() as int)[k] == w[k]);
                    assert(r[k] == d.last());
                }
            }
        }
    }
}

/// The watches of a job: its own list, or else the one of the settings,
/// is kept first and in order; then, when the default watches are added,
/// "Cargo.toml", "src", "tests", "benches", "examples" and "build.rs" are
/// all watched, and nothing else is added, nor anything already there;
/// without the default watches, the list is kept as it is
pub proof fn lemma_watches(job_watch: Option<Seq<Seq<char>>>, settings_watch: Seq<Seq<char>>, add_default: bool)
    ensures
        ({
            let base = match job_watch {
                Some(w) => w,
                None => settings_watch,
            };
            let r = spec_watches(job_watch, settings_watch, add_default);
            &&& r.len() >= base.len()
            &&& r.take(base.len() as int) == base
            &&& !add_default ==> r == base
            &&& add_default ==> r.contains("Cargo.toml"@) && r.contains("src"@) && r.contains("tests"@)
                && r.contains("benches"@) && r.contains("examples"@) && r.contains("build.rs"@)
            &&& forall|i: int| base.len() <= i < r.len() ==> !base.contains(#[trigger] r[i]) && (r[i]
                == "Cargo.toml"@ || r[i] == "src"@ || r[i] == "tests"@ || r[i] == "benches"@ || r[i]
                == "examples"@ || r[i] == "build.rs"@)
        }),
{
    let base = match job_watch {
        Some(w) => w,
        None => settings_watch,
    };
    let d = default_watches();
    if add_default {
        lemma_add_missing_keeps(base, d);
        lemma_add_missing_new(base, d);
        let r = add_missing(base, d);
        assert(d[0] == "Cargo.toml"@ && d[1] == "src"@ && d[2] == "tests"@ && d[3] == "benches"@
            && d[4] == "examples"@ && d[5] == "build.rs"@);
        assert(r.contains(d[0]) && r.contains(d[1]) && r.contains(d[2]) && r.contains(d[3])
            && r.contains(d[4]) && r.contains(d[5]));
        assert forall|i: int| base.len() <= i < r.len() implies !base.contains(#[trigger] r[i]) && (r[i]
            == "Cargo.toml"@ || r[i] == "src"@ || r[i] == "tests"@ || r[i] == "benches"@ || r[i]
            == "examples"@ || r[i] == "build.rs"@) by {
            assert(d.contains(r[i]));
            let k = choose|k: int| 0 <= k < d.len() && d[k] == r[i];
        }
    } else {
        assert(base.take(base.len() as int) =~= base);
    }
}

fn contains_str(v: &Vec<String>, s: &str) -> (r: bool)
    ensures
        r == strings_view(v@).contains(s@),
{
    let mut i: usize = 0;
    while i < v.len()
        invariant
            i <= v@.len(),
            forall|j: int| 0 <= j < i ==> v@[j]@ != s@,
        decreases v@.len() - i,
    {
        if str_eq(v[i].as_str(), s) {
            assert(strings_view(v@)[i as int] == s@);
            return true;
        }
        i += 1;
    }
    proof {
        if strings_view(v@).contains(s@) {
            let k = choose|k: int| 0 <= k < strings_view(v@).len() && strings_view(v@)[k] == s@;
            assert(v@[k]@ == s@);
        }
    }
    false
}

fn string_from(s: &str) -> (r: String)
    ensures
        r@ == s@,
{
    let mut r = String::new();
    push_all(&mut r, s);
    assert(r@ =~= s@);
    r
}

/// The watches of a job: the job's list when it has one, else the list of
/// the settings, then, when `add_default` is set, each of the default
/// watches ("Cargo.toml", "src", "tests", "benches", "examples",
/// "build.rs") which isn't already there, in that order. Whether the paths
/// exist isn't checked here.
pub fn watches_of(job_watch: Option<Vec<String>>, settings_watch: Vec<String>, add_default: bool) -> (r:
    Vec<String>)
    ensures
        strings_view(r@) == spec_watches(
            match job_watch {
                Some(w) => Some(strings_view(w@)),
                None => None,
            },
            strings_view(settings_watch@),
            add_default,
        ),
{
    let mut watches = match job_watch {
        Some(w) => w,
        None => settings_watch,
    };
    if !add_default {
        return watches;
    }
    let ghost base = strings_view(watches@);
    let defaults = vec!["Cargo.toml", "src", "tests", "benches", "examples", "build.rs"];
    let ghost dv = default_watches();
    assert(dv.len() == defaults@.len());
    assert forall|k: int| 0 <= k < dv.len() implies dv[k] == #[trigger] defaults@[k]@ by {}
    let mut i: usize = 0;
    while i < defaults.len()
        invariant
            i <= defaults@.len() == dv.len(),
            forall|k: int| 0 <= k < dv.len() ==> dv[k] == #[trigger] defaults@[k]@,
            strings_view(watches@) == add_missing(base, dv.take(i as int)),
        decreases defaults@.len() - i,
    {
        let d = defaults[i];
        assert(dv.take(i + 1).drop_last() =~= dv.take(i as int));
        assert(dv.take(i + 1).last() == d@);
        if !contains_str(&watches, d) {
            let ghost before = watches@;
            watches.push(string_from(d));
            assert(strings_view(watches@) =~= strings_view(before).push(d@));
        }
        i += 1;
    }
    assert(dv.take(i as int) =~= dv);
    watches
}

} // verus!
