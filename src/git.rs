//! The git status probe: three flags read from the outcomes of git commands.
//!
//! A command that could not be run, or whose result does not show the condition, gives
//! `false`: the flags are display hints and never fail an operation.
use vstd::prelude::*;
use vstd::string::*;

verus! {

/// How one external command went.
#[derive(Debug, Clone, Copy, PartialEq, Eq, Structural)]
pub enum CommandOutcome {
    /// The command could not be started.
    NotRun,
    /// The command ran to completion.
    Finished {
        /// Its exit code, when it exited normally.
        code: Option<i32>,
        /// It wrote nothing to standard output.
        stdout_empty: bool,
    },
}

/// The three status flags of a project's repository.
#[derive(Debug, Clone, Copy, PartialEq, Eq, Structural)]
pub struct GitFlags {
    /// Files exist that are neither tracked nor ignored.
    pub untracked: bool,
    /// The work tree or the index differs from HEAD.
    pub uncommitted: bool,
    /// An upstream is configured and HEAD has commits it lacks.
    pub unpushed: bool,
}

/// The command exited with `code`.
pub open spec fn exited_with(o: CommandOutcome, code: i32) -> bool {
    o matches CommandOutcome::Finished { code: Some(c), .. } && c == code
}

/// The command succeeded and printed something.
pub open spec fn printed(o: CommandOutcome) -> bool {
    exited_with(o, 0) && o matches CommandOutcome::Finished { stdout_empty: false, .. }
}

/// The git commands whose outcomes the flags are read from.
#[derive(Debug, Clone, Copy, PartialEq, Eq, Structural)]
pub enum GitQuery {
    /// `git ls-files --others --exclude-standard`
    Untracked,
    /// `git diff --quiet`
    Diff,
    /// `git diff --cached --quiet`
    DiffCached,
    /// `git rev-parse --abbrev-ref @{u}`
    Upstream,
    /// `git log @{u}..HEAD --oneline`
    UnpushedLog,
}

/// The arguments to `git` for a query.
pub open spec fn query_args_spec(q: GitQuery) -> Seq<Seq<char>> {
    match q {
        GitQuery::Untracked => seq!["ls-files"@, "--others"@, "--exclude-standard"@],
        GitQuery::Diff => seq!["diff"@, "--quiet"@],
        GitQuery::DiffCached => seq!["diff"@, "--cached"@, "--quiet"@],
        GitQuery::Upstream => seq!["rev-parse"@, "--abbrev-ref"@, "@{u}"@],
        GitQuery::UnpushedLog => seq!["log"@, "@{u}..HEAD"@, "--oneline"@],
    }
}

/// The arguments to `git` for a query.
pub fn query_args(q: GitQuery) -> (r: Vec<String>)
    ensures
        r@.map_values(|s: String| s@) == query_args_spec(q),
{
    let mut v: Vec<String> = Vec::new();
    match q {
        GitQuery::Untracked => {
            v.push(String::from_str("ls-files"));
            v.push(String::from_str("--others"));
            v.push(String::from_str("--exclude-standard"));
        },
        GitQuery::Diff => {
            v.push(String::from_str("diff"));
            v.push(String::from_str("--quiet"));
        },
        GitQuery::DiffCached => {
            v.push(String::from_str("diff"));
            v.push(String::from_str("--cached"));
            v.push(String::from_str("--quiet"));
        },
        GitQuery::Upstream => {
            v.push(String::from_str("rev-parse"));
            v.push(String::from_str("--abbrev-ref"));
            v.push(String::from_str("@{u}"));
        },
        GitQuery::UnpushedLog => {
            v.push(String::from_str("log"));
            v.push(String::from_str("@{u}..HEAD"));
            v.push(String::from_str("--oneline"));
        },
    }
    assert(v@.map_values(|s: String| s@) =~= query_args_spec(q));
    v
}

/// Whether the command exited with `code`.
fn exits_with(o: CommandOutcome, code: i32) -> (r: bool)
    ensures
        r == exited_with(o, code),
{
    match o {
        CommandOutcome::Finished { code: Some(c), .. } => c == code,
        _ => false,
    }
}

/// Whether the command succeeded and printed something.
fn exits_printing(o: CommandOutcome) -> (r: bool)
    ensures
        r == printed(o),
{
    match o {
        CommandOutcome::Finished { code: Some(c), stdout_empty } => c == 0 && !stdout_empty,
        _ => false,
    }
}

/// The flags read from the outcomes of the five queries: untracked files when the listing
/// succeeds and prints; changes when a diff exits with 1 (2 and above are errors);
/// unpushed commits when an upstream is found and the log succeeds and prints. Any other
/// outcome, a command that could not run included, reads as `false`.
pub fn git_status_flags(
    untracked: CommandOutcome,
    diff: CommandOutcome,
    diff_cached: CommandOutcome,
    upstream: CommandOutcome,
    unpushed_log: CommandOutcome,
) -> (r: GitFlags)
    ensures
        r.untracked == printed(untracked),
        r.uncommitted == (exited_with(diff, 1) || exited_with(diff_cached, 1)),
        r.unpushed == (exited_with(upstream, 0) && printed(unpushed_log)),
{
    let untracked_flag = exits_printing(untracked);
    let diff_flag = exits_with(diff, 1);
    let cached_flag = exits_with(diff_cached, 1);
    let has_upstream = exits_with(upstream, 0);
    let log_flag = exits_printing(unpushed_log);
    GitFlags { untracked: untracked_flag, uncommitted: diff_flag || cached_flag, unpushed: has_upstream && log_flag }
}

/// The flags of a project without a repository: all clear.
pub fn no_repository_flags() -> (r: GitFlags)
    ensures
        !r.untracked && !r.uncommitted && !r.unpushed,
{
    GitFlags { untracked: false, uncommitted: false, unpushed: false }
}

/// The red marker of a set flag.
pub open spec fn flag_mark_spec(c: char) -> Seq<char> {
    seq!['\x1b', '[', '3', '1', 'm', c, '\x1b', '[', '0', 'm']
}

/// The markers shown beside a project: `+` untracked, `c` uncommitted, `^` unpushed.
pub open spec fn flag_marks_spec(f: GitFlags) -> Seq<char> {
    (if f.untracked { flag_mark_spec('+') } else { seq![] })
        + (if f.uncommitted { flag_mark_spec('c') } else { seq![] })
        + (if f.unpushed { flag_mark_spec('^') } else { seq![] })
}

/// The markers shown beside a project for its flags.
pub fn flag_marks(f: GitFlags) -> (r: String)
    ensures
        r@ == flag_marks_spec(f),
{
    let (plus, c, caret) = ("\x1b[31m+\x1b[0m", "\x1b[31mc\x1b[0m", "\x1b[31m^\x1b[0m");
    proof {
        reveal_strlit("\x1b[31m+\x1b[0m");
        reveal_strlit("\x1b[31mc\x1b[0m");
        reveal_strlit("\x1b[31m^\x1b[0m");
        assert(plus@ =~= flag_mark_spec('+'));
        assert(c@ =~= flag_mark_spec('c'));
        assert(caret@ =~= flag_mark_spec('^'));
    }
    let mut s = String::new();
    if f.untracked {
        s.append(plus);
    }
    if f.uncommitted {
        s.append(c);
    }
    if f.unpushed {
        s.append(caret);
    }
    assert(s@ =~= flag_marks_spec(f));
    s
}

} // verus!
