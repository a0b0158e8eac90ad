use cwt::error::Error;
use cwt::git;

fn strings(args: &[&str]) -> Vec<String> {
    args.iter().map(|a| a.to_string()).collect()
}

#[test]
fn queries() {
    assert_eq!(git::show_toplevel(), strings(&["rev-parse", "--show-toplevel"]));
    assert_eq!(git::current_branch(), strings(&["rev-parse", "--abbrev-ref", "HEAD"]));
    assert_eq!(git::current_commit(), strings(&["rev-parse", "HEAD"]));
}

#[test]
fn worktree_commands() {
    assert_eq!(
        git::add_worktree("cwt/x/fix", "/repo/.worktrees/x"),
        strings(&["worktree", "add", "-b", "cwt/x/fix", "/repo/.worktrees/x"])
    );
    assert_eq!(
        git::remove_worktree("/repo/.worktrees/x", false),
        strings(&["worktree", "remove", "/repo/.worktrees/x"])
    );
    assert_eq!(
        git::remove_worktree("/repo/.worktrees/x", true),
        strings(&["worktree", "remove", "--force", "/repo/.worktrees/x"])
    );
}

#[test]
fn branch_commands() {
    assert_eq!(git::delete_branch("cwt/x/fix", false), strings(&["branch", "-d", "cwt/x/fix"]));
    assert_eq!(git::delete_branch("cwt/x/fix", true), strings(&["branch", "-D", "cwt/x/fix"]));
    assert_eq!(git::checkout("main"), strings(&["checkout", "main"]));
    assert_eq!(
        git::merge("Merge x: fix", "cwt/x/fix"),
        strings(&["merge", "--no-ff", "-m", "Merge x: fix", "cwt/x/fix"])
    );
}

#[test]
fn report_of_a_success_is_the_trimmed_output() {
    assert_eq!(git::report(true, "main\n", "warning: ignored"), Ok("main".to_string()));
}

#[test]
fn report_of_a_failure_is_the_diagnostics() {
    assert_eq!(
        git::report(false, "partial output", "fatal: not a git repository\n"),
        Err("fatal: not a git repository\n".to_string())
    );
}

#[test]
fn root_is_what_git_answers() {
    assert_eq!(
        git::repository_root(Ok("/home/me/repo".to_string()), "/home/me/repo/src", false),
        Ok("/home/me/repo".to_string())
    );
}

#[test]
fn root_falls_back_to_the_current_directory() {
    assert_eq!(
        git::repository_root(Err("fatal".to_string()), "/home/me/repo", true),
        Ok("/home/me/repo".to_string())
    );
}

#[test]
fn no_root_outside_a_repository() {
    assert_eq!(
        git::repository_root(Err("fatal".to_string()), "/tmp", false),
        Err(Error::NotInRepository)
    );
}
