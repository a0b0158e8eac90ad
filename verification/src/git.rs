//! The git command lines that the lifecycle of an agent needs.
//!
//! Each function gives the arguments that follow `git` on the command line.
//! Running them is left to the caller.

use vstd::prelude::*;
use crate::error::{Error, ErrorView};
use crate::text::{text_result, trim, trimmed};

verus! {

/// The arguments of a command line, each as a sequence of characters.
pub type Arguments = Seq<Seq<char>>;

/// Asks for the root of the repository that the process runs in.
pub open spec fn show_toplevel_args() -> Arguments {
    seq!["rev-parse"@, "--show-toplevel"@]
}

/// Asks for the name of the branch that is checked out.
pub open spec fn current_branch_args() -> Arguments {
    seq!["rev-parse"@, "--abbrev-ref"@, "HEAD"@]
}

/// Asks for the commit that is checked out.
pub open spec fn current_commit_args() -> Arguments {
    seq!["rev-parse"@, "HEAD"@]
}

/// Creates a worktree at `path` on a new branch `branch`.
pub open spec fn add_worktree_args(branch: Seq<char>, path: Seq<char>) -> Arguments {
    seq!["worktree"@, "add"@, "-b"@, branch, path]
}

/// Removes the worktree at `path`, by force where `force` is set.
pub open spec fn remove_worktree_args(path: Seq<char>, force: bool) -> Arguments {
    if force {
        seq!["worktree"@, "remove"@, "--force"@, path]
    } else {
        seq!["worktree"@, "remove"@, path]
    }
}

/// Deletes the branch `name`: only if it is merged, or in any case where
/// `force` is set.
pub open spec fn delete_branch_args(name: Seq<char>, force: bool) -> Arguments {
    if force {
        seq!["branch"@, "-D"@, name]
    } else {
        seq!["branch"@, "-d"@, name]
    }
}

/// Checks out `branch`.
pub open spec fn checkout_args(branch: Seq<char>) -> Arguments {
    seq!["checkout"@, branch]
}

/// Merges `branch` into what is checked out, always with a merge commit,
/// whose message is `message`.
pub open spec fn merge_args(message: Seq<char>, branch: Seq<char>) -> Arguments {
    seq!["merge"@, "--no-ff"@, "-m"@, message, branch]
}

/// What a run of git came to: its trimmed output where it succeeded, what it
/// wrote to standard error where it did not.
pub open spec fn report_of(success: bool, stdout: Seq<char>, stderr: Seq<char>) -> Result<
    Seq<char>,
    Seq<char>,
> {
    if success {
        Ok(trimmed(stdout))
    } else {
        Err(stderr)
    }
}

/// The arguments that ask for the root of the repository.
pub fn show_toplevel() -> (args: Vec<String>)
    ensures
        args.deep_view() == show_toplevel_args(),
{
    let mut args: Vec<String> = Vec::new();
    args.push("rev-parse".to_owned());
    args.push("--show-toplevel".to_owned());
    assert(args.deep_view() =~= show_toplevel_args());
    args
}

/// The arguments that ask for the name of the branch that is checked out.
pub fn current_branch() -> (args: Vec<String>)
    ensures
        args.deep_view() == current_branch_args(),
{
    let mut args: Vec<String> = Vec::new();
    args.push("rev-parse".to_owned());
    args.push("--abbrev-ref".to_owned());
    args.push("HEAD".to_owned());
    assert(args.deep_view() =~= current_branch_args());
    args
}

/// The arguments that ask for the commit that is checked out.
pub fn current_commit() -> (args: Vec<String>)
    ensures
        args.deep_view() == current_commit_args(),
{
    let mut args: Vec<String> = Vec::new();
    args.push("rev-parse".to_owned());
    args.push("HEAD".to_owned());
    assert(args.deep_view() =~= current_commit_args());
    args
}

/// The arguments that create a worktree at `path` on a new branch `branch`.
pub fn add_worktree(branch: &str, path: &str) -> (args: Vec<String>)
    ensures
        args.deep_view() == add_worktree_args(branch@, path@),
{
    let mut args: Vec<String> = Vec::new();
    args.push("worktree".to_owned());
    args.push("add".to_owned());
    args.push("-b".to_owned());
    args.push(branch.to_owned());
    args.push(path.to_owned());
    assert(args.deep_view() =~= add_worktree_args(branch@, path@));
    args
}

/// The arguments that remove the worktree at `path`, by force where `force`
/// is set.
pub fn remove_worktree(path: &str, force: bool) -> (args: Vec<String>)
    ensures
        args.deep_view() == remove_worktree_args(path@, force),
{
    let mut args: Vec<String> = Vec::new();
    args.push("worktree".to_owned());
    args.push("remove".to_owned());
    if force {
        args.push("--force".to_owned());
    }
    args.push(path.to_owned());
    assert(args.deep_view() =~= remove_worktree_args(path@, force));
    args
}

/// The arguments that delete the branch `name`: only if it is merged, or in
/// any case where `force` is set.
pub fn delete_branch(name: &str, force: bool) -> (args: Vec<String>)
    ensures
        args.deep_view() == delete_branch_args(name@, force),
{
    let mut args: Vec<String> = Vec::new();
    args.push("branch".to_owned());
    if force {
        args.push("-D".to_owned());
    } else {
        args.push("-d".to_owned());
    }
    args.push(name.to_owned());
    assert(args.deep_view() =~= delete_branch_args(name@, force));
    args
}

/// The arguments that check out `branch`.
pub fn checkout(branch: &str) -> (args: Vec<String>)
    ensures
        args.deep_view() == checkout_args(branch@),
{
    let mut args: Vec<String> = Vec::new();
    args.push("checkout".to_owned());
    args.push(branch.to_owned());
    assert(args.deep_view() =~= checkout_args(branch@));
    args
}

/// The arguments that merge `branch` into what is checked out, always with a
/// merge commit, whose message is `message`.
pub fn merge(message: &str, branch: &str) -> (args: Vec<String>)
    ensures
        args.deep_view() == merge_args(message@, branch@),
{
    let mut args: Vec<String> = Vec::new();
    args.push("merge".to_owned());
    args.push("--no-ff".to_owned());
    args.push("-m".to_owned());
    args.push(message.to_owned());
    args.push(branch.to_owned());
    assert(args.deep_view() =~= merge_args(message@, branch@));
    args
}

/// Classifies a run of git: a run that succeeded gives its output, trimmed;
/// one that failed gives what it wrote to standard error.
pub fn report(success: bool, stdout: &str, stderr: &str) -> (r: Result<String, String>)
    ensures
        text_result(r) == report_of(success, stdout@, stderr@),
{
    if success {
        Ok(trim(stdout))
    } else {
        Err(stderr.to_owned())
    }
}

/// The root of the repository to work in, given what git answered when
/// asked for it: that answer, or the current directory where git failed and a
/// repository is there.
pub open spec fn root_of(
    toplevel: Result<Seq<char>, Seq<char>>,
    current_dir: Seq<char>,
    current_dir_is_repository: bool,
) -> Option<Seq<char>> {
    match toplevel {
        Ok(path) => Some(path),
        Err(_) => if current_dir_is_repository {
            Some(current_dir)
        } else {
            None
        },
    }
}

/// The root of the repository to work in: see `root_of`. It fails with
/// `NotInRepository` where there is none.
pub fn repository_root(
    toplevel: Result<String, String>,
    current_dir: &str,
    current_dir_is_repository: bool,
) -> (root: Result<String, Error>)
    ensures
        match root {
            Ok(path) => root_of(text_result(toplevel), current_dir@, current_dir_is_repository)
                == Some(path@),
            Err(e) => root_of(text_result(toplevel), current_dir@, current_dir_is_repository)
                is None && e@ == ErrorView::NotInRepository,
        },
{
    match toplevel {
        Ok(path) => Ok(path),
        Err(_) => {
            if current_dir_is_repository {
                Ok(current_dir.to_owned())
            } else {
                Err(Error::NotInRepository)
            }
        },
    }
}

} // verus!
