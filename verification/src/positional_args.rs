//! Positional launch arguments: a job, a path, or both.
use vstd::prelude::*;
use crate::text::{has_char, has_char_exec, opt_view, to_chars};

verus! {

/// A problem with the launch arguments
pub enum ArgsError {
    /// More positional arguments than can be used
    TooManyArguments,
    /// A positional argument while both the job and the path are given
    UnexpectedArgument(String),
}

/// A positional argument containing a dot or a slash is a path, it can't be a job
pub open spec fn looks_like_path(a: Seq<char>) -> bool {
    has_char(a, '.') || has_char(a, '/')
}

/// Where the positional arguments go, given the job and path already set:
/// the new job and path, or the problem
pub open spec fn spec_dispatch(
    args: Seq<Seq<char>>,
    job: Option<Seq<char>>,
    path: Option<Seq<char>>,
) -> Result<(Option<Seq<char>>, Option<Seq<char>>), Option<Seq<char>>> {
    let second = if args.len() >= 2 {
        Some(args[1])
    } else {
        None
    };
    if args.len() == 0 {
        Ok((job, path))
    } else if job is None && path is None {
        if looks_like_path(args[0]) {
            Ok((second, Some(args[0])))
        } else {
            Ok((Some(args[0]), second))
        }
    } else if args.len() >= 2 {
        Err(None)
    } else if job is None {
        Ok((Some(args[0]), path))
    } else if path is None {
        Ok((job, Some(args[0])))
    } else {
        Err(Some(args[0]))
    }
}

/// Without positional arguments, the job and the path are kept: fixing the
/// arguments a second time changes nothing
pub proof fn lemma_dispatch_nothing(job: Option<Seq<char>>, path: Option<Seq<char>>)
    ensures
        spec_dispatch(Seq::empty(), job, path) == Ok::<
            (Option<Seq<char>>, Option<Seq<char>>),
            Option<Seq<char>>,
        >((job, path)),
{
}

/// A single positional argument, when neither the job nor the path is
/// given, is the path when it holds a dot or a slash (like `../broot`), and
/// the job otherwise (like `clippy`)
pub proof fn lemma_dispatch_single(a: Seq<char>)
    ensures
        (has_char(a, '.') || has_char(a, '/')) ==> spec_dispatch(seq![a], None, None) == Ok::<
            (Option<Seq<char>>, Option<Seq<char>>),
            Option<Seq<char>>,
        >((None, Some(a))),
        !(has_char(a, '.') || has_char(a, '/')) ==> spec_dispatch(seq![a], None, None) == Ok::<
            (Option<Seq<char>>, Option<Seq<char>>),
            Option<Seq<char>>,
        >((Some(a), None)),
{
}

/// With the path given and no job, a single positional argument is the job
/// (like `bacon --path ../broot clippy`), whatever it looks like
pub proof fn lemma_dispatch_job_after_path(a: Seq<char>, p: Seq<char>)
    ensures
        spec_dispatch(seq![a], None, Some(p)) == Ok::<(Option<Seq<char>>, Option<Seq<char>>), Option<Seq<char>>>(
            (Some(a), Some(p)),
        ),
{
}

/// With the job given and no path, a single positional argument is the
/// path (like `bacon --job clippy ../broot`), whatever it looks like
pub proof fn lemma_dispatch_path_after_job(a: Seq<char>, j: Seq<char>)
    ensures
        spec_dispatch(seq![a], Some(j), None) == Ok::<(Option<Seq<char>>, Option<Seq<char>>), Option<Seq<char>>>(
            (Some(j), Some(a)),
        ),
{
}

/// With both the job and the path given, a positional argument is
/// unexpected, and it's the one reported
pub proof fn lemma_dispatch_unexpected(a: Seq<char>, j: Seq<char>, p: Seq<char>)
    ensures
        spec_dispatch(seq![a], Some(j), Some(p)) == Err::<(Option<Seq<char>>, Option<Seq<char>>), Option<Seq<char>>>(
            Some(a),
        ),
{
}

/// Two positional arguments, when neither the job nor the path is given,
/// are a job and a path, the path being the one holding a dot or a slash
/// when the first one does; with the job or the path already given, two
/// arguments are too many
pub proof fn lemma_dispatch_two(a: Seq<char>, b: Seq<char>, j: Option<Seq<char>>, p: Option<Seq<char>>)
    ensures
        (has_char(a, '.') || has_char(a, '/')) ==> spec_dispatch(seq![a, b], None, None) == Ok::<
            (Option<Seq<char>>, Option<Seq<char>>),
            Option<Seq<char>>,
        >((Some(b), Some(a))),
        !(has_char(a, '.') || has_char(a, '/')) ==> spec_dispatch(seq![a, b], None, None) == Ok::<
            (Option<Seq<char>>, Option<Seq<char>>),
            Option<Seq<char>>,
        >((Some(a), Some(b))),
        (j is Some || p is Some) ==> spec_dispatch(seq![a, b], j, p) == Err::<
            (Option<Seq<char>>, Option<Seq<char>>),
            Option<Seq<char>>,
        >(None),
{
}

/// Move the positional arguments to the job and the path, emptying them.
///
/// Positional arguments are a convenience allowing to skip writing the
/// option names of the job and of the path.
pub fn dispatch_positional_args(
    args: &mut Vec<String>,
    job: &mut Option<String>,
    path: &mut Option<String>,
) -> (r: Result<(), ArgsError>)
    ensures
        final(args)@.len() == 0,
        match spec_dispatch(old(args)@.map_values(|s: String| s@), opt_view(*old(job)), opt_view(*old(path))) {
            Ok((j, p)) => r is Ok && opt_view(*final(job)) == j && opt_view(*final(path)) == p,
            Err(None) => r == Err::<(), ArgsError>(ArgsError::TooManyArguments) && *final(job) == *old(job)
                && *final(path) == *old(path),
            Err(Some(a)) => (match r {
                Err(ArgsError::UnexpectedArgument(s)) => s@ == a,
                _ => false,
            }) && *final(job) == *old(job) && *final(path) == *old(path),
        },
{
    let ghost views = args@.map_values(|s: String| s@);
    let mut given: Vec<String> = Vec::new();
    std::mem::swap(&mut given, args);
    let n = given.len();
    if n == 0 {
        return Ok(());
    }
    let a = given.remove(0);
    let b = if n >= 2 {
        Some(given.remove(0))
    } else {
        None
    };
    proof {
        assert(a@ == views[0]);
        if n >= 2 {
            assert(b.unwrap()@ == views[1]);
        }
    }
    if job.is_none() && path.is_none() {
        let chars = to_chars(a.as_str());
        if has_char_exec(chars.as_slice(), '.') || has_char_exec(chars.as_slice(), '/') {
            *path = Some(a);
            *job = b;
        } else {
            *job = Some(a);
            *path = b;
        }
        return Ok(());
    }
    if n >= 2 {
        return Err(ArgsError::TooManyArguments);
    }
    if job.is_none() {
        *job = Some(a);
        Ok(())
    } else if path.is_none() {
        *path = Some(a);
        Ok(())
    } else {
        Err(ArgsError::UnexpectedArgument(a))
    }
}

} // verus!
