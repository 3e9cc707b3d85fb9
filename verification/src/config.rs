//! Building a search configuration from command-line arguments and
//! environment-derived defaults.
//!
//! The caller reads the two environment signals once at startup and passes
//! them in as plain booleans, which keeps the selector a pure decision
//! function: the default policy comes from the signals, and explicit flags
//! override it, the last flag winning.

use vstd::prelude::*;

verus! {

/// A resolved search configuration: what to look for, where, and how to
/// compare.
#[derive(Debug)]
pub struct Config {
    pub query: String,
    pub file_path: String,
    pub ignore_case: bool,
}

/// The running state of the argument scan.
pub struct ScanState {
    pub query: Seq<char>,
    pub found_query: bool,
    pub file_path: Seq<char>,
    pub ignore_case: bool,
}

/// A token that looks like a flag: it starts with `--`.
pub open spec fn is_flag_token(a: Seq<char>) -> bool {
    a.len() >= 2 && a[0] == '-' && a[1] == '-'
}

pub open spec fn is_case_sensitive_flag(a: Seq<char>) -> bool {
    a == "--case-sensitive"@
}

pub open spec fn is_ignore_case_flag(a: Seq<char>) -> bool {
    a == "--ignore-case"@
}

pub open spec fn is_case_flag(a: Seq<char>) -> bool {
    is_case_sensitive_flag(a) || is_ignore_case_flag(a)
}

/// A token that looks like a flag but is neither of the recognized flags.
pub open spec fn is_invalid_flag(a: Seq<char>) -> bool {
    is_flag_token(a) && !is_case_flag(a)
}

pub open spec fn has_invalid_flag(args: Seq<Seq<char>>) -> bool {
    exists|i: int| 0 <= i < args.len() && is_invalid_flag(#[trigger] args[i])
}

/// The default case policy derived from the environment signals: a present
/// "case sensitive" signal forces sensitive comparison, otherwise a present
/// "ignore case" signal selects insensitive comparison.
pub open spec fn default_ignore_case(case_sensitive_env: bool, ignore_case_env: bool) -> bool {
    if case_sensitive_env {
        false
    } else {
        ignore_case_env
    }
}

pub open spec fn initial_state(case_sensitive_env: bool, ignore_case_env: bool) -> ScanState {
    ScanState {
        query: Seq::<char>::empty(),
        found_query: false,
        file_path: Seq::<char>::empty(),
        ignore_case: default_ignore_case(case_sensitive_env, ignore_case_env),
    }
}

/// How a single argument token updates the scan state: the first positional
/// becomes the query, the next positional (while the path is still empty)
/// becomes the file path, and a recognized flag overrides the case policy.
pub open spec fn scan_step(st: ScanState, a: Seq<char>) -> ScanState {
    if !is_flag_token(a) {
        if !st.found_query {
            ScanState { query: a, found_query: true, ..st }
        } else if st.file_path.len() == 0 {
            ScanState { file_path: a, ..st }
        } else {
            st
        }
    } else if is_case_sensitive_flag(a) {
        ScanState { ignore_case: false, ..st }
    } else if is_ignore_case_flag(a) {
        ScanState { ignore_case: true, ..st }
    } else {
        st
    }
}

/// The scan state after processing every argument token, left to right.
pub open spec fn scan(args: Seq<Seq<char>>, st: ScanState) -> ScanState
    decreases args.len(),
{
    if args.len() == 0 {
        st
    } else {
        scan_step(scan(args.drop_last(), st), args.last())
    }
}

/// What building a configuration yields for given arguments and environment
/// signals.
pub enum BuildOutcome {
    TooFewArguments,
    InvalidFlag,
    MissingQueryOrPath,
    Built { query: Seq<char>, file_path: Seq<char>, ignore_case: bool },
}

pub open spec fn build_outcome(
    args: Seq<Seq<char>>,
    case_sensitive_env: bool,
    ignore_case_env: bool,
) -> BuildOutcome {
    if args.len() < 3 {
        BuildOutcome::TooFewArguments
    } else if has_invalid_flag(args.skip(1)) {
        BuildOutcome::InvalidFlag
    } else {
        let st = scan(args.skip(1), initial_state(case_sensitive_env, ignore_case_env));
        if st.query.len() == 0 || st.file_path.len() == 0 {
            BuildOutcome::MissingQueryOrPath
        } else {
            BuildOutcome::Built {
                query: st.query,
                file_path: st.file_path,
                ignore_case: st.ignore_case,
            }
        }
    }
}

/// Decides whether two string slices hold the same characters.
fn str_eq(a: &str, b: &str) -> (r: bool)
    ensures
        r == (a@ == b@),
{
    let n = a.unicode_len();
    let m = b.unicode_len();
    if n != m {
        return false;
    }
    let mut i: usize = 0;
    while i < n
        invariant
            n == a@.len(),
            n == b@.len(),
            i <= n,
            forall|k: int| 0 <= k < i ==> a@[k] == b@[k],
        decreases n - i,
    {
        if a.get_char(i) != b.get_char(i) {
            return false;
        }
        i += 1;
    }
    proof {
        assert(a@ =~= b@);
    }
    true
}

/// Decides whether a token starts with `--`.
fn starts_with_double_dash(a: &str) -> (r: bool)
    ensures
        r == is_flag_token(a@),
{
    let n = a.unicode_len();
    n >= 2 && a.get_char(0) == '-' && a.get_char(1) == '-'
}

impl Config {
    /// Builds a configuration from the argument list (the first entry is the
    /// program name) and the two environment signals, exactly as
    /// `build_outcome` describes: distinct errors for too few arguments, an
    /// unrecognized flag, and a missing query or file path.
    pub fn build(args: &[String], case_sensitive_env: bool, ignore_case_env: bool) -> (r: Result<
        Config,
        &'static str,
    >)
        ensures
            match build_outcome(args.deep_view(), case_sensitive_env, ignore_case_env) {
                BuildOutcome::TooFewArguments => r matches Err(m) && m@
                    == "Not enough arguments provided"@,
                BuildOutcome::InvalidFlag => r matches Err(m) && m@
                    == "Invalid commandline argument provided"@,
                BuildOutcome::MissingQueryOrPath => r matches Err(m) && m@
                    == "Query and the file path must be provided"@,
                BuildOutcome::Built { query, file_path, ignore_case } => r matches Ok(c)
                    && c.query@ == query && c.file_path@ == file_path && c.ignore_case
                    == ignore_case,
            },
    {
        let ghost vargs = args.deep_view();
        if args.len() < 3 {
            return Err("Not enough arguments provided");
        }
        let mut query = String::new();
        let mut file_path = String::new();
        let mut found_query = false;
        let mut ignore_case = if case_sensitive_env {
            false
        } else {
            ignore_case_env
        };
        let ghost init = initial_state(case_sensitive_env, ignore_case_env);
        proof {
            assert(vargs.subrange(1, 1) =~= Seq::<Seq<char>>::empty());
        }
        let mut i: usize = 1;
        while i < args.len()
            invariant
                1 <= i <= args@.len(),
                3 <= args@.len(),
                vargs == args.deep_view(),
                vargs.len() == args@.len(),
                init == initial_state(case_sensitive_env, ignore_case_env),
                !has_invalid_flag(vargs.subrange(1, i as int)),
                scan(vargs.subrange(1, i as int), init) == (ScanState {
                    query: query@,
                    found_query,
                    file_path: file_path@,
                    ignore_case,
                }),
            decreases args@.len() - i,
        {
            let arg: &String = &args[i];
            proof {
                assert(vargs[i as int] == arg@);
                assert(vargs.subrange(1, i + 1).drop_last() =~= vargs.subrange(1, i as int));
                assert(vargs.subrange(1, i + 1).last() == vargs[i as int]);
            }
            if !starts_with_double_dash(arg.as_str()) {
                if !found_query {
                    query = arg.clone();
                    found_query = true;
                } else if file_path.as_str().is_empty() {
                    file_path = arg.clone();
                }
            } else if str_eq(arg.as_str(), "--case-sensitive") {
                ignore_case = false;
            } else if str_eq(arg.as_str(), "--ignore-case") {
                ignore_case = true;
            } else {
                proof {
                    assert(vargs.skip(1)[i - 1] == vargs[i as int]);
                    assert(is_invalid_flag(vargs.skip(1)[i - 1]));
                }
                return Err("Invalid commandline argument provided");
            }
            i += 1;
        }
        proof {
            assert(vargs.subrange(1, args@.len() as int) =~= vargs.skip(1));
        }
        if query.as_str().is_empty() || file_path.as_str().is_empty() {
            return Err("Query and the file path must be provided");
        }
        Ok(Config { query, file_path, ignore_case })
    }
}

/// With no case flag among the argument tokens, the scan keeps the
/// environment-derived default policy.
pub proof fn lemma_no_case_flag_keeps_default(args: Seq<Seq<char>>, st: ScanState)
    requires
        forall|i: int| 0 <= i < args.len() ==> !is_case_flag(#[trigger] args[i]),
    ensures
        scan(args, st).ignore_case == st.ignore_case,
    decreases args.len(),
{
    if args.len() > 0 {
        assert(args.last() == args[args.len() - 1]);
        lemma_no_case_flag_keeps_default(args.drop_last(), st);
    }
}

/// A command flag always overrides the environment-derived default: whatever
/// the starting state, the last case flag alone determines the policy, and
/// `--ignore-case` selects insensitive comparison.
pub proof fn lemma_last_case_flag_wins(args: Seq<Seq<char>>, st: ScanState, k: int)
    requires
        0 <= k < args.len(),
        is_case_flag(args[k]),
        forall|i: int| k < i < args.len() ==> !is_case_flag(#[trigger] args[i]),
    ensures
        scan(args, st).ignore_case == is_ignore_case_flag(args[k]),
    decreases args.len(),
{
    reveal_strlit("--case-sensitive");
    reveal_strlit("--ignore-case");
    if k == args.len() - 1 {
        assert(args.last() == args[k]);
    } else {
        assert(args.drop_last()[k] == args[k]);
        lemma_last_case_flag_wins(args.drop_last(), st, k);
        assert(args.last() == args[args.len() - 1]);
    }
}

} // verus!
