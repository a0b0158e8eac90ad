use cwt::clock::Timestamp;
use cwt::error::Error;
use cwt::lifecycle::Step;
use cwt::worktree::{Agent, AgentStatus, Manager, State, Stored};

const ID: &str = "cwt-20240131-ab3z";

fn at(secs: i64) -> Timestamp {
    Timestamp { secs, nanos: 0 }
}

fn run(args: &[&str]) -> Step {
    Step::Run(args.iter().map(|a| a.to_string()).collect())
}

fn done(text: &str) -> Result<String, String> {
    Ok(text.to_string())
}

fn failed(text: &str) -> Result<String, String> {
    Err(text.to_string())
}

fn manager() -> Manager {
    Manager::new("/repo".to_string(), true, Stored::Absent).unwrap()
}

fn agent(id: &str, status: AgentStatus) -> Agent {
    Agent {
        id: id.to_string(),
        branch: format!("cwt/{}/task", id),
        worktree: format!("/repo/.worktrees/{}", id),
        task: "task".to_string(),
        status,
        base_branch: "main".to_string(),
        base_commit: "0123abc".to_string(),
        created_at: at(100),
        merged_at: None,
    }
}

fn manager_with(agents: Vec<Agent>) -> Manager {
    let state =
        State::from_parts("1.0".to_string(), "/repo".to_string(), ".worktrees".to_string(), agents)
            .unwrap();
    Manager::new("/repo".to_string(), true, Stored::Snapshot(state)).unwrap()
}

fn created(m: &mut Manager, task: &str, id: &str) -> Agent {
    m.create_worktree_as(task, id.to_string());
    m.resume_at(done("main"), at(1));
    m.resume_at(done("0123abc"), at(2));
    m.resume_at(done(""), at(3));
    match m.resume_at(done(""), at(4)) {
        Step::Created(agent) => agent,
        other => panic!("no agent was created: {:?}", other),
    }
}

#[test]
fn fresh_state() {
    let state = State::new("/repo".to_string());
    assert_eq!(state.version(), "1.0");
    assert_eq!(state.repo_root(), "/repo");
    assert_eq!(state.worktree_dir(), ".worktrees");
    assert!(state.agents().is_empty());
}

#[test]
fn state_file_lies_under_the_control_directory() {
    assert_eq!(State::state_file("/repo"), "/repo/.cwt/state.json");
}

#[test]
fn load_without_a_snapshot_is_fresh() {
    let state = State::load("/repo", Stored::Absent).unwrap();
    assert_eq!(state, State::new("/repo".to_string()));
}

#[test]
fn load_of_a_corrupt_snapshot_fails() {
    assert_eq!(State::load("/repo", Stored::Corrupt), Err(Error::CorruptState));
}

#[test]
fn load_gives_the_stored_snapshot() {
    let stored = State::from_parts(
        "1.0".to_string(),
        "/elsewhere".to_string(),
        "trees".to_string(),
        vec![agent("a", AgentStatus::Running)],
    )
    .unwrap();
    let state = State::load("/repo", Stored::Snapshot(stored)).unwrap();
    assert_eq!(state.repo_root(), "/elsewhere");
    assert_eq!(state.worktree_dir(), "trees");
    assert_eq!(state.agents().len(), 1);
    assert_eq!(state.get("a"), Some(&agent("a", AgentStatus::Running)));
}

#[test]
fn snapshot_with_one_identifier_twice_is_corrupt() {
    let made = State::from_parts(
        "1.0".to_string(),
        "/repo".to_string(),
        ".worktrees".to_string(),
        vec![agent("a", AgentStatus::Running), agent("b", AgentStatus::Merged), agent("a", AgentStatus::Failed)],
    );
    assert_eq!(made, Err(Error::CorruptState));
}

#[test]
fn snapshot_from_filed_records() {
    let state = State::from_entries(
        "1.0".to_string(),
        "/repo".to_string(),
        ".worktrees".to_string(),
        vec![
            ("a".to_string(), agent("a", AgentStatus::Running)),
            ("b".to_string(), agent("b", AgentStatus::Merged)),
        ],
    )
    .unwrap();
    assert_eq!(state.agents().len(), 2);
    assert_eq!(state.agents()[0], agent("a", AgentStatus::Running));
    assert_eq!(state.agents()[1], agent("b", AgentStatus::Merged));
}

#[test]
fn record_filed_under_another_identifier_is_corrupt() {
    let made = State::from_entries(
        "1.0".to_string(),
        "/repo".to_string(),
        ".worktrees".to_string(),
        vec![
            ("a".to_string(), agent("a", AgentStatus::Running)),
            ("c".to_string(), agent("b", AgentStatus::Merged)),
        ],
    );
    assert_eq!(made, Err(Error::CorruptState));
}

#[test]
fn records_filed_twice_are_corrupt() {
    let made = State::from_entries(
        "1.0".to_string(),
        "/repo".to_string(),
        ".worktrees".to_string(),
        vec![
            ("a".to_string(), agent("a", AgentStatus::Running)),
            ("a".to_string(), agent("a", AgentStatus::Merged)),
        ],
    );
    assert_eq!(made, Err(Error::CorruptState));
}

#[test]
fn state_insert_get_remove() {
    let mut state = State::new("/repo".to_string());
    state.insert(agent("a", AgentStatus::Running));
    state.insert(agent("b", AgentStatus::Running));
    assert_eq!(state.agents().len(), 2);
    assert_eq!(state.get("b").unwrap().id, "b");
    assert!(state.get("c").is_none());
    // the same identifier again takes the place of the record
    state.insert(agent("a", AgentStatus::Failed));
    assert_eq!(state.agents().len(), 2);
    assert_eq!(state.agents()[0].status, AgentStatus::Failed);
    assert_eq!(state.remove("a"), Some(agent("a", AgentStatus::Failed)));
    assert_eq!(state.remove("a"), None);
    assert_eq!(state.agents().len(), 1);
    assert_eq!(state.agents()[0].id, "b");
}

#[test]
fn state_set_status_and_merged() {
    let mut state = State::new("/repo".to_string());
    state.insert(agent("a", AgentStatus::Running));
    assert!(state.set_status("a", AgentStatus::Completed));
    assert!(!state.set_status("zz", AgentStatus::Completed));
    assert_eq!(state.get("a").unwrap().status, AgentStatus::Completed);
    assert!(state.set_merged("a", at(7)));
    assert!(!state.set_merged("zz", at(7)));
    let a = state.get("a").unwrap();
    assert_eq!(a.status, AgentStatus::Merged);
    assert_eq!(a.merged_at, Some(at(7)));
    assert_eq!(a.created_at, at(100));
}

#[test]
fn manager_needs_a_repository() {
    let made = Manager::new("/tmp/x".to_string(), false, Stored::Absent);
    assert_eq!(made.err(), Some(Error::NotARepository { path: "/tmp/x".to_string() }));
}

#[test]
fn manager_refuses_a_corrupt_snapshot() {
    let made = Manager::new("/repo".to_string(), true, Stored::Corrupt);
    assert_eq!(made.err(), Some(Error::CorruptState));
}

#[test]
fn manager_starts_idle_and_empty() {
    let m = manager();
    assert!(m.is_idle());
    assert_eq!(m.repo_root(), "/repo");
    assert!(m.list_agents().is_empty());
    assert_eq!(m.state(), &State::new("/repo".to_string()));
}

#[test]
fn current_branch_is_what_git_answers() {
    let mut m = manager();
    assert_eq!(m.current_branch(), run(&["rev-parse", "--abbrev-ref", "HEAD"]));
    assert!(!m.is_idle());
    assert_eq!(m.resume_at(done("main"), at(1)), Step::Text("main".to_string()));
    assert!(m.is_idle());
}

#[test]
fn current_commit_is_what_git_answers() {
    let mut m = manager();
    assert_eq!(m.current_commit(), run(&["rev-parse", "HEAD"]));
    assert_eq!(m.resume_at(done("0123abc"), at(1)), Step::Text("0123abc".to_string()));
}

#[test]
fn failed_query_is_a_vcs_failure() {
    let mut m = manager();
    m.current_commit();
    assert_eq!(
        m.resume_at(failed("fatal: bad revision"), at(1)),
        Step::Failed(Error::VcsCommandFailed { stderr: "fatal: bad revision".to_string() })
    );
    assert!(m.is_idle());
}

#[test]
fn create_asks_for_base_worktree_and_save_in_order() {
    let mut m = manager();
    assert_eq!(
        m.create_worktree_as("Fix the Bug!! in parser", ID.to_string()),
        run(&["rev-parse", "--abbrev-ref", "HEAD"])
    );
    assert_eq!(m.resume_at(done("main"), at(1)), run(&["rev-parse", "HEAD"]));
    assert_eq!(
        m.resume_at(done("0123abc"), at(2)),
        run(&[
            "worktree",
            "add",
            "-b",
            "cwt/cwt-20240131-ab3z/fix-the-bug-in-parser",
            "/repo/.worktrees/cwt-20240131-ab3z",
        ])
    );
    // nothing is recorded before the worktree exists
    assert!(m.get_agent(ID).is_none());
    assert_eq!(m.resume_at(done(""), at(3)), Step::Save);
    // the snapshot that is to be saved holds the agent
    assert_eq!(m.state().get(ID).unwrap().status, AgentStatus::Running);
    let expected = Agent {
        id: ID.to_string(),
        branch: "cwt/cwt-20240131-ab3z/fix-the-bug-in-parser".to_string(),
        worktree: "/repo/.worktrees/cwt-20240131-ab3z".to_string(),
        task: "Fix the Bug!! in parser".to_string(),
        status: AgentStatus::Running,
        base_branch: "main".to_string(),
        base_commit: "0123abc".to_string(),
        created_at: at(3),
        merged_at: None,
    };
    assert_eq!(m.resume_at(done(""), at(4)), Step::Created(expected.clone()));
    assert!(m.is_idle());
    assert_eq!(m.get_agent(ID), Some(&expected));
}

#[test]
fn create_then_get_finds_a_running_agent() {
    let mut m = manager();
    let agent = created(&mut m, "write docs", ID);
    let found = m.get_agent(&agent.id).unwrap();
    assert_eq!(found, &agent);
    assert_eq!(found.status, AgentStatus::Running);
    assert_eq!(found.merged_at, None);
    assert_eq!(found.worktree, "/repo/.worktrees/cwt-20240131-ab3z");
}

#[test]
fn created_agent_is_in_the_snapshot_as_returned() {
    let mut m = manager();
    let agent = created(&mut m, "write docs", ID);
    assert_eq!(m.state().agents().len(), 1);
    assert_eq!(m.state().agents()[0], agent);
    assert_eq!(m.list_agents(), vec![&agent]);
}

#[test]
fn create_with_a_generated_identifier() {
    let mut m = manager();
    assert_eq!(m.create_worktree("write docs"), run(&["rev-parse", "--abbrev-ref", "HEAD"]));
    m.resume(done("main"));
    let step = m.resume(done("0123abc"));
    let args = match step {
        Step::Run(args) => args,
        other => panic!("git was not asked: {:?}", other),
    };
    assert_eq!(args.len(), 5);
    assert!(args[3].starts_with("cwt/cwt-"));
    assert!(args[3].ends_with("/write-docs"));
    assert!(args[4].starts_with("/repo/.worktrees/cwt-"));
    assert_eq!(m.resume(done("")), Step::Save);
    match m.resume(done("")) {
        Step::Created(agent) => {
            assert_eq!(agent.branch, args[3]);
            assert_eq!(agent.worktree, args[4]);
            // the instant comes from the clock
            assert!(agent.created_at.secs > 1_600_000_000);
            assert!(agent.created_at.nanos < 2_000_000_000);
        },
        other => panic!("no agent was created: {:?}", other),
    }
}

#[test]
fn create_records_nothing_where_git_fails() {
    for failing in 0..3 {
        let mut m = manager();
        m.create_worktree_as("task", ID.to_string());
        for _ in 0..failing {
            m.resume_at(done("x"), at(1));
        }
        assert_eq!(
            m.resume_at(failed("fatal: no"), at(2)),
            Step::Failed(Error::VcsCommandFailed { stderr: "fatal: no".to_string() })
        );
        assert!(m.is_idle());
        assert!(m.get_agent(ID).is_none());
        assert!(m.list_agents().is_empty());
    }
}

#[test]
fn create_where_the_save_fails_is_a_storage_failure() {
    let mut m = manager();
    m.create_worktree_as("task", ID.to_string());
    m.resume_at(done("main"), at(1));
    m.resume_at(done("0123abc"), at(2));
    m.resume_at(done(""), at(3));
    assert_eq!(
        m.resume_at(failed("disk full"), at(4)),
        Step::Failed(Error::StorageFailed { detail: "disk full".to_string() })
    );
    assert!(m.is_idle());
}

#[test]
fn create_under_a_used_identifier_takes_its_place() {
    let mut m = manager();
    created(&mut m, "first", ID);
    let second = created(&mut m, "second", ID);
    assert_eq!(m.list_agents().len(), 1);
    assert_eq!(m.get_agent(ID), Some(&second));
}

#[test]
fn remove_of_an_unknown_agent_fails_and_changes_nothing() {
    let mut m = manager_with(vec![agent("a", AgentStatus::Running)]);
    let before = m.list_agents().into_iter().cloned().collect::<Vec<Agent>>();
    assert_eq!(m.remove_worktree("nobody"), Step::Failed(Error::AgentNotFound));
    assert!(m.is_idle());
    assert_eq!(m.list_agents().into_iter().cloned().collect::<Vec<Agent>>(), before);
}

#[test]
fn remove_where_git_succeeds() {
    let mut m = manager_with(vec![agent("a", AgentStatus::Running), agent("b", AgentStatus::Running)]);
    assert_eq!(m.remove_worktree("a"), run(&["worktree", "remove", "/repo/.worktrees/a"]));
    assert_eq!(m.resume_at(done(""), at(1)), run(&["branch", "-d", "cwt/a/task"]));
    assert!(m.get_agent("a").is_some());
    assert_eq!(m.resume_at(done(""), at(2)), Step::Save);
    assert!(m.get_agent("a").is_none());
    assert_eq!(m.resume_at(done(""), at(3)), Step::Removed);
    assert!(m.is_idle());
    assert_eq!(m.list_agents().len(), 1);
    assert_eq!(m.list_agents()[0].id, "b");
}

#[test]
fn remove_uses_force_where_the_first_attempt_fails() {
    let mut m = manager_with(vec![agent("a", AgentStatus::Running)]);
    m.remove_worktree("a");
    assert_eq!(
        m.resume_at(failed("dirty"), at(1)),
        run(&["worktree", "remove", "--force", "/repo/.worktrees/a"])
    );
    assert_eq!(m.resume_at(done(""), at(2)), run(&["branch", "-d", "cwt/a/task"]));
    assert_eq!(m.resume_at(failed("not merged"), at(3)), run(&["branch", "-D", "cwt/a/task"]));
    assert_eq!(m.resume_at(done(""), at(4)), Step::Save);
    assert_eq!(m.resume_at(done(""), at(5)), Step::Removed);
    assert!(m.list_agents().is_empty());
}

#[test]
fn remove_goes_on_where_every_attempt_fails() {
    let mut m = manager_with(vec![agent("a", AgentStatus::Running)]);
    m.remove_worktree("a");
    m.resume_at(failed("1"), at(1));
    assert_eq!(m.resume_at(failed("2"), at(2)), run(&["branch", "-d", "cwt/a/task"]));
    m.resume_at(failed("3"), at(3));
    assert_eq!(m.resume_at(failed("4"), at(4)), Step::Save);
    assert!(m.get_agent("a").is_none());
    assert_eq!(m.resume_at(done(""), at(5)), Step::Removed);
}

#[test]
fn remove_where_the_save_fails_is_a_storage_failure() {
    let mut m = manager_with(vec![agent("a", AgentStatus::Running)]);
    m.remove_worktree("a");
    m.resume_at(done(""), at(1));
    m.resume_at(done(""), at(2));
    assert_eq!(
        m.resume_at(failed("read-only"), at(3)),
        Step::Failed(Error::StorageFailed { detail: "read-only".to_string() })
    );
}

#[test]
fn update_status_sets_and_saves() {
    let mut m = manager_with(vec![agent("a", AgentStatus::Running)]);
    assert_eq!(m.update_status("a", AgentStatus::Completed), Step::Save);
    assert_eq!(m.get_agent("a").unwrap().status, AgentStatus::Completed);
    assert_eq!(m.resume_at(done(""), at(1)), Step::Updated);
    assert!(m.is_idle());
}

#[test]
fn update_status_of_an_unknown_agent_fails() {
    let mut m = manager_with(vec![agent("a", AgentStatus::Running)]);
    assert_eq!(m.update_status("nobody", AgentStatus::Failed), Step::Failed(Error::AgentNotFound));
    assert!(m.is_idle());
    assert_eq!(m.get_agent("a").unwrap().status, AgentStatus::Running);
}

#[test]
fn merge_marks_saves_checks_out_merges_and_stamps() {
    let mut m = manager_with(vec![agent("a", AgentStatus::Running)]);
    // the mark is saved before git is asked for anything
    assert_eq!(m.merge("a"), Step::Save);
    assert_eq!(m.get_agent("a").unwrap().status, AgentStatus::Merging);
    assert_eq!(m.resume_at(done(""), at(1)), run(&["checkout", "main"]));
    assert_eq!(m.get_agent("a").unwrap().status, AgentStatus::Merging);
    assert_eq!(
        m.resume_at(done(""), at(2)),
        run(&["merge", "--no-ff", "-m", "Merge a: task", "cwt/a/task"])
    );
    assert_eq!(m.get_agent("a").unwrap().status, AgentStatus::Merging);
    assert_eq!(m.get_agent("a").unwrap().merged_at, None);
    assert_eq!(m.resume_at(done("Merge made"), at(3)), Step::Save);
    assert_eq!(m.get_agent("a").unwrap().status, AgentStatus::Merged);
    assert_eq!(m.get_agent("a").unwrap().merged_at, Some(at(3)));
    assert_eq!(m.resume_at(done(""), at(4)), Step::Merged);
    assert!(m.is_idle());
}

#[test]
fn merge_that_fails_leaves_the_agent_merging() {
    let mut m = manager_with(vec![agent("a", AgentStatus::Running)]);
    m.merge("a");
    m.resume_at(done(""), at(1));
    m.resume_at(done(""), at(2));
    assert_eq!(
        m.resume_at(failed("CONFLICT"), at(3)),
        Step::Failed(Error::VcsCommandFailed { stderr: "CONFLICT".to_string() })
    );
    assert!(m.is_idle());
    assert_eq!(m.get_agent("a").unwrap().status, AgentStatus::Merging);
    assert_eq!(m.get_agent("a").unwrap().merged_at, None);
}

#[test]
fn checkout_that_fails_leaves_the_agent_merging() {
    let mut m = manager_with(vec![agent("a", AgentStatus::Running)]);
    m.merge("a");
    m.resume_at(done(""), at(1));
    assert_eq!(
        m.resume_at(failed("error: pathspec"), at(2)),
        Step::Failed(Error::VcsCommandFailed { stderr: "error: pathspec".to_string() })
    );
    assert_eq!(m.get_agent("a").unwrap().status, AgentStatus::Merging);
    assert_eq!(m.get_agent("a").unwrap().merged_at, None);
}

#[test]
fn merge_whose_mark_cannot_be_saved_asks_git_for_nothing() {
    let mut m = manager_with(vec![agent("a", AgentStatus::Running)]);
    m.merge("a");
    assert_eq!(
        m.resume_at(failed("disk full"), at(1)),
        Step::Failed(Error::StorageFailed { detail: "disk full".to_string() })
    );
    assert!(m.is_idle());
}

#[test]
fn merge_of_an_unknown_agent_fails() {
    let mut m = manager_with(vec![agent("a", AgentStatus::Running)]);
    assert_eq!(m.merge("nobody"), Step::Failed(Error::AgentNotFound));
    assert_eq!(m.get_agent("a").unwrap().status, AgentStatus::Running);
}

#[test]
fn merge_stamps_the_instant_of_the_clock() {
    let mut m = manager_with(vec![agent("a", AgentStatus::Running)]);
    m.merge("a");
    m.resume(done(""));
    m.resume(done(""));
    assert_eq!(m.resume(done("")), Step::Save);
    let merged_at = m.get_agent("a").unwrap().merged_at.unwrap();
    assert!(merged_at.secs > 1_600_000_000);
}

#[test]
fn an_operation_cannot_begin_while_another_runs() {
    let mut m = manager_with(vec![agent("a", AgentStatus::Running)]);
    m.merge("a");
    assert_eq!(m.remove_worktree("a"), Step::Failed(Error::OutOfTurn));
    assert_eq!(m.update_status("a", AgentStatus::Failed), Step::Failed(Error::OutOfTurn));
    assert_eq!(m.create_worktree_as("t", "x".to_string()), Step::Failed(Error::OutOfTurn));
    assert_eq!(m.current_branch(), Step::Failed(Error::OutOfTurn));
    assert_eq!(m.merge("a"), Step::Failed(Error::OutOfTurn));
    // the merge goes on as if nothing had been asked
    assert_eq!(m.resume_at(done(""), at(1)), run(&["checkout", "main"]));
}

#[test]
fn nothing_to_resume_while_idle() {
    let mut m = manager();
    assert_eq!(m.resume_at(done(""), at(1)), Step::Failed(Error::OutOfTurn));
    assert!(m.is_idle());
}

#[test]
fn steps_that_end_an_operation() {
    assert!(!run(&["status"]).is_final());
    assert!(!Step::Save.is_final());
    assert!(Step::Removed.is_final());
    assert!(Step::Text(String::new()).is_final());
    assert!(Step::Failed(Error::AgentNotFound).is_final());
}
