//! What Weave learns from git: the repository root, the branch, HEAD and
//! whether the working tree or the dependency files are dirty, read from
//! the output of the git commands the caller runs.
use vstd::prelude::*;
use crate::error::Error;
use crate::text::{chars_of, extend_str, own, string_of, trim, trim_chars};

verus! {

/// Working-tree dirtiness Weave cares about.
#[derive(Debug, Clone, Copy, PartialEq, Eq, Structural)]
pub struct WorkingTreeState {
    /// Any uncommitted change.
    pub dirty: bool,
    /// `package.json` and/or the lockfile differ from HEAD or are untracked.
    pub dependency_files_dirty: bool,
}

/// Snapshot of a git repository.
#[derive(Debug)]
pub struct GitRepository {
    /// Repository root.
    pub root: String,
    /// Current branch, if HEAD is not detached.
    pub branch: Option<String>,
    /// Short HEAD hash.
    pub head: String,
    /// Working tree state.
    pub working_tree: WorkingTreeState,
}

/// The files whose state is reported as dependency state.
pub open spec fn dependency_files() -> Seq<Seq<char>> {
    seq!["package.json"@, "package-lock.json"@]
}

/// The dependency files, as `git status` path arguments.
pub fn dependency_file_paths() -> (r: Vec<String>)
    ensures
        r.deep_view() == dependency_files(),
{
    let r = vec![own("package.json"), own("package-lock.json")];
    assert(r.deep_view() =~= dependency_files());
    r
}

/// The trimmed text of a command's standard output.
fn trimmed(stdout: &str) -> (r: Vec<char>)
    ensures
        r@ == trim(stdout@),
{
    trim_chars(&chars_of(stdout))
}

/// `git status --porcelain` printed something: there are changes.
pub fn porcelain_dirty(stdout: &str) -> (r: bool)
    ensures
        r == (trim(stdout@).len() > 0),
{
    trimmed(stdout).len() > 0
}

/// The root `git rev-parse --show-toplevel` printed for `start`; when the
/// command failed or printed nothing, `start` is not in a repository.
pub fn toplevel_root(success: bool, stdout: &str, start: &str) -> (r: Result<String, Error>)
    ensures
        success && trim(stdout@).len() > 0 ==> (r matches Ok(x) && x@ == trim(stdout@)),
        !(success && trim(stdout@).len() > 0) ==> (r matches Err(Error::NotAGitRepository { path })
            && path@ == start@),
{
    let root = trimmed(stdout);
    if !success || root.len() == 0 {
        return Err(Error::NotAGitRepository { path: own(start) });
    }
    Ok(string_of(&root))
}

/// The branch `git symbolic-ref --quiet --short HEAD` printed; none when it
/// failed (HEAD detached) or printed nothing.
pub fn branch_from_symbolic_ref(success: bool, stdout: &str) -> (r: Option<String>)
    ensures
        success && trim(stdout@).len() > 0 ==> (r matches Some(b) && b@ == trim(stdout@)),
        !(success && trim(stdout@).len() > 0) ==> r is None,
{
    if !success {
        return None;
    }
    let name = trimmed(stdout);
    if name.len() == 0 {
        None
    } else {
        Some(string_of(&name))
    }
}

/// The short HEAD name `git rev-parse --short HEAD` printed.
pub fn head_from_output(stdout: &str) -> (r: String)
    ensures
        r@ == trim(stdout@),
{
    string_of(&trimmed(stdout))
}

/// Arguments of `git status --porcelain -- <paths>`; none when there are no
/// paths to ask about (they are then clean).
pub fn status_args(paths: &Vec<String>) -> (r: Option<Vec<String>>)
    ensures
        paths@.len() == 0 ==> r is None,
        paths@.len() > 0 ==> (r matches Some(a) && a.deep_view() == seq!["status"@, "--porcelain"@, "--"@]
            + paths.deep_view()),
{
    if paths.len() == 0 {
        return None;
    }
    let mut args = vec![own("status"), own("--porcelain"), own("--")];
    let ghost head = args.deep_view();
    assert(head =~= seq!["status"@, "--porcelain"@, "--"@]);
    let mut i: usize = 0;
    while i < paths.len()
        invariant
            i <= paths@.len(),
            head == seq!["status"@, "--porcelain"@, "--"@],
            args.deep_view() == head + paths.deep_view().take(i as int),
        decreases paths@.len() - i,
    {
        let ghost before = args.deep_view();
        args.push(own(paths[i].as_str()));
        assert(paths.deep_view().take(i + 1) =~= paths.deep_view().take(i as int).push(paths@[i as int]@));
        assert(args.deep_view() =~= before.push(paths@[i as int]@));
        i += 1;
    }
    assert(paths.deep_view().take(paths@.len() as int) =~= paths.deep_view());
    Some(args)
}

/// The words joined by single spaces.
pub open spec fn joined(ws: Seq<Seq<char>>) -> Seq<char>
    decreases ws.len(),
{
    if ws.len() == 0 {
        Seq::empty()
    } else if ws.len() == 1 {
        ws[0]
    } else {
        joined(ws.drop_last()) + " "@ + ws.last()
    }
}

/// The error of a failed git command: its trimmed standard error, or which
/// command failed when it printed nothing.
pub fn git_failure(args: &Vec<String>, stderr: &str) -> (r: Error)
    ensures
        r matches Error::Git { message } && message@ == if trim(stderr@).len() > 0 {
            trim(stderr@)
        } else {
            "git "@ + joined(args.deep_view()) + " failed"@
        },
{
    let err = trimmed(stderr);
    if err.len() > 0 {
        return Error::Git { message: string_of(&err) };
    }
    let mut m = chars_of("git ");
    let ghost start = m@;
    let ghost av = args.deep_view();
    let mut i: usize = 0;
    while i < args.len()
        invariant
            i <= av.len(),
            av == args.deep_view(),
            m@ == start + joined(av.take(i as int)),
        decreases av.len() - i,
    {
        if i > 0 {
            extend_str(&mut m, " ");
        }
        extend_str(&mut m, args[i].as_str());
        proof {
            let t = av.take(i + 1);
            assert(t.drop_last() =~= av.take(i as int));
            assert(t.last() == av[i as int]);
            if i == 0 {
                assert(t.len() == 1);
                assert(joined(av.take(0)) =~= Seq::<char>::empty());
            }
        }
        i += 1;
    }
    assert(av.take(av.len() as int) =~= av);
    extend_str(&mut m, " failed");
    Error::Git { message: string_of(&m) }
}

} // verus!
