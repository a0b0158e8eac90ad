use cwt::app::{App, Command, InputMode};
use cwt::clock::Timestamp;
use cwt::keys::{key_to_bytes, KeyCode, KeyEvent};
use cwt::worktree::{Agent, AgentStatus, Manager, State, Stored};

fn agent(id: &str, task: &str, status: AgentStatus) -> Agent {
    Agent {
        id: id.to_string(),
        branch: format!("cwt/{}/task", id),
        worktree: format!("/repo/.worktrees/{}", id),
        task: task.to_string(),
        status,
        base_branch: "main".to_string(),
        base_commit: "0123abc".to_string(),
        created_at: Timestamp { secs: 100, nanos: 0 },
        merged_at: None,
    }
}

fn app_with(agents: Vec<Agent>) -> App {
    let state =
        State::from_parts("1.0".to_string(), "/repo".to_string(), ".worktrees".to_string(), agents)
            .unwrap();
    App::new(Manager::new("/repo".to_string(), true, Stored::Snapshot(state)).unwrap())
}

fn app() -> App {
    app_with(Vec::new())
}

fn plain(code: KeyCode) -> KeyEvent {
    KeyEvent { code, control: false }
}

fn ctrl(c: char) -> KeyEvent {
    KeyEvent { code: KeyCode::Char(c), control: true }
}

fn type_text(app: &mut App, text: &str) {
    for c in text.chars() {
        assert_eq!(app.handle_key(plain(KeyCode::Char(c))), Command::Nothing);
    }
}

fn ids(app: &App) -> Vec<String> {
    app.tabs().iter().map(|t| t.id.clone()).collect()
}

#[test]
fn keys_as_bytes() {
    assert_eq!(key_to_bytes(plain(KeyCode::Char('a'))), b"a");
    assert_eq!(key_to_bytes(plain(KeyCode::Char('é'))), "é".as_bytes());
    assert_eq!(key_to_bytes(plain(KeyCode::Char('日'))), "日".as_bytes());
    assert_eq!(key_to_bytes(plain(KeyCode::Enter)), b"\r");
    assert_eq!(key_to_bytes(plain(KeyCode::Backspace)), vec![127]);
    assert_eq!(key_to_bytes(plain(KeyCode::Tab)), b"\t");
    assert_eq!(key_to_bytes(plain(KeyCode::Esc)), vec![27]);
    assert_eq!(key_to_bytes(plain(KeyCode::Up)), b"\x1b[A");
    assert_eq!(key_to_bytes(plain(KeyCode::Down)), b"\x1b[B");
    assert_eq!(key_to_bytes(plain(KeyCode::Right)), b"\x1b[C");
    assert_eq!(key_to_bytes(plain(KeyCode::Left)), b"\x1b[D");
    assert_eq!(key_to_bytes(plain(KeyCode::Home)), b"\x1b[H");
    assert_eq!(key_to_bytes(plain(KeyCode::End)), b"\x1b[F");
    assert_eq!(key_to_bytes(plain(KeyCode::PageUp)), b"\x1b[5~");
    assert_eq!(key_to_bytes(plain(KeyCode::PageDown)), b"\x1b[6~");
    assert_eq!(key_to_bytes(plain(KeyCode::Delete)), b"\x1b[3~");
    assert!(key_to_bytes(plain(KeyCode::Other)).is_empty());
}

#[test]
fn control_keys_as_bytes() {
    assert_eq!(key_to_bytes(ctrl('a')), vec![1]);
    assert_eq!(key_to_bytes(ctrl('d')), vec![4]);
    assert_eq!(key_to_bytes(ctrl('z')), vec![26]);
    assert!(key_to_bytes(ctrl('A')).is_empty());
    assert!(key_to_bytes(ctrl('1')).is_empty());
    assert!(key_to_bytes(ctrl('é')).is_empty());
    // Control changes nothing for the named keys
    assert_eq!(key_to_bytes(KeyEvent { code: KeyCode::Up, control: true }), b"\x1b[A");
}

#[test]
fn starts_with_the_main_tab_and_session() {
    let app = app();
    assert_eq!(app.tabs().len(), 1);
    assert_eq!(app.tabs()[0].id, "main");
    assert_eq!(app.tabs()[0].name, "Main");
    assert!(app.tabs()[0].is_main);
    assert!(app.tabs()[0].agent.is_none());
    assert_eq!(app.active_tab(), 0);
    assert_eq!(app.input_mode(), &InputMode::Normal);
    assert!(!app.should_quit());
    assert_eq!((app.term_rows(), app.term_cols()), (24, 80));
    let main = app.pty_manager().get("main").unwrap();
    assert_eq!(main.workdir(), "/repo");
    assert_eq!(main.task(), "Main orchestrator");
    assert_eq!((main.rows(), main.cols()), (24, 80));
    assert_eq!(app.wt_manager().repo_root(), "/repo");
}

#[test]
fn running_agents_are_those_to_start_again() {
    let app = app_with(vec![
        agent("a", "one", AgentStatus::Running),
        agent("b", "two", AgentStatus::Merged),
        agent("c", "three", AgentStatus::Running),
        agent("d", "four", AgentStatus::Merging),
    ]);
    let running: Vec<String> = app.running_agents().into_iter().map(|a| a.id).collect();
    assert_eq!(running, vec!["a", "c"]);
}

#[test]
fn restored_agent_gets_a_tab_and_a_session() {
    let mut app = app_with(vec![agent("a", "a task with a long description", AgentStatus::Running)]);
    let running = app.running_agents();
    app.restore_agent(&running[0]);
    assert_eq!(ids(&app), vec!["main", "a"]);
    assert_eq!(app.tabs()[1].name, "a task with a …");
    assert!(!app.tabs()[1].is_main);
    assert_eq!(app.tabs()[1].agent.as_ref(), Some(&running[0]));
    assert_eq!(app.active_tab(), 0);
    let s = app.pty_manager().get("a").unwrap();
    assert_eq!(s.workdir(), "/repo/.worktrees/a");
    assert_eq!((s.rows(), s.cols()), (24, 80));
}

#[test]
fn sessions_get_what_the_bars_leave() {
    let mut app = app();
    assert_eq!(app.session_size(), (22, 80));
    app.resize(40, 120);
    assert_eq!((app.term_rows(), app.term_cols()), (40, 120));
    assert_eq!(app.session_size(), (38, 120));
    let main = app.pty_manager().get("main").unwrap();
    assert_eq!((main.rows(), main.cols()), (38, 120));
    assert_eq!(main.screen_rows().len(), 38);
}

#[test]
fn a_screen_is_never_smaller_than_it_can_be() {
    let mut app = app();
    app.resize(2, 1);
    assert_eq!((app.term_rows(), app.term_cols()), (2, 1));
    assert_eq!(app.session_size(), (1, 1));
    app.resize(0, 0);
    assert_eq!(app.session_size(), (1, 1));
    let main = app.pty_manager().get("main").unwrap();
    assert_eq!((main.rows(), main.cols()), (1, 1));
    assert_eq!(main.screen_rows().len(), 1);
    app.resize(3, 2);
    assert_eq!(app.session_size(), (1, 2));
    app.resize(4, 3);
    assert_eq!(app.session_size(), (2, 3));
    let main = app.pty_manager().get("main").unwrap();
    assert_eq!((main.rows(), main.cols()), (2, 3));
}

#[test]
fn plain_keys_go_to_the_active_session() {
    let mut app = app();
    assert_eq!(
        app.handle_key(plain(KeyCode::Char('x'))),
        Command::Write { id: "main".to_string(), bytes: b"x".to_vec() }
    );
    assert_eq!(
        app.handle_key(plain(KeyCode::Enter)),
        Command::Write { id: "main".to_string(), bytes: b"\r".to_vec() }
    );
    assert_eq!(app.handle_key(plain(KeyCode::Other)), Command::Nothing);
}

#[test]
fn other_control_keys_go_to_the_active_session() {
    let mut app = app();
    assert_eq!(
        app.handle_key(ctrl('d')),
        Command::Write { id: "main".to_string(), bytes: vec![4] }
    );
    assert_eq!(app.handle_key(ctrl('D')), Command::Nothing);
    assert_eq!(
        app.handle_key(KeyEvent { code: KeyCode::Left, control: true }),
        Command::Write { id: "main".to_string(), bytes: b"\x1b[D".to_vec() }
    );
}

#[test]
fn control_q_and_c_ask_to_quit() {
    for c in ['q', 'c'] {
        let mut app = app();
        assert_eq!(app.handle_key(ctrl(c)), Command::Nothing);
        assert!(app.should_quit());
    }
}

#[test]
fn typing_a_task_asks_for_an_agent() {
    let mut app = app();
    assert_eq!(app.handle_key(ctrl('n')), Command::Nothing);
    assert_eq!(
        app.input_mode(),
        &InputMode::Input { prompt: "Task: ".to_string(), buffer: String::new() }
    );
    type_text(&mut app, "fix itt");
    assert_eq!(app.handle_key(plain(KeyCode::Backspace)), Command::Nothing);
    assert_eq!(app.handle_key(plain(KeyCode::Up)), Command::Nothing);
    assert_eq!(app.status_line(), "Task: fix it█");
    assert_eq!(
        app.handle_key(plain(KeyCode::Enter)),
        Command::CreateAgent { task: "fix it".to_string() }
    );
    // the line stays open until the agent is there
    assert_eq!(
        app.input_mode(),
        &InputMode::Input { prompt: "Task: ".to_string(), buffer: "fix it".to_string() }
    );
    app.create_agent(agent("a", "fix it", AgentStatus::Running));
    assert_eq!(app.input_mode(), &InputMode::Normal);
    assert_eq!(ids(&app), vec!["main", "a"]);
    assert_eq!(app.active_tab(), 1);
    assert_eq!(app.tabs()[1].name, "fix it");
    let s = app.pty_manager().get("a").unwrap();
    assert_eq!(s.workdir(), "/repo/.worktrees/a");
    assert_eq!(s.task(), "fix it");
    assert_eq!((s.rows(), s.cols()), (22, 80));
}

#[test]
fn control_keys_are_text_while_typing() {
    let mut app = app();
    app.handle_key(ctrl('n'));
    assert_eq!(app.handle_key(ctrl('q')), Command::Nothing);
    assert!(!app.should_quit());
    assert_eq!(
        app.input_mode(),
        &InputMode::Input { prompt: "Task: ".to_string(), buffer: "q".to_string() }
    );
}

#[test]
fn enter_on_an_empty_line_leaves_it() {
    let mut app = app();
    app.handle_key(ctrl('n'));
    assert_eq!(app.handle_key(plain(KeyCode::Backspace)), Command::Nothing);
    assert_eq!(app.handle_key(plain(KeyCode::Enter)), Command::Nothing);
    assert_eq!(app.input_mode(), &InputMode::Normal);
}

#[test]
fn escape_leaves_the_line() {
    let mut app = app();
    app.handle_key(ctrl('n'));
    type_text(&mut app, "never mind");
    assert_eq!(app.handle_key(plain(KeyCode::Esc)), Command::Nothing);
    assert_eq!(app.input_mode(), &InputMode::Normal);
    assert_eq!(app.tabs().len(), 1);
}

#[test]
fn moving_between_tabs() {
    let mut app = app();
    app.create_agent(agent("a", "one", AgentStatus::Running));
    app.create_agent(agent("b", "two", AgentStatus::Running));
    assert_eq!(app.active_tab(), 2);
    assert_eq!(app.handle_key(ctrl('f')), Command::Nothing);
    assert_eq!(app.active_tab(), 2);
    app.handle_key(ctrl('b'));
    assert_eq!(app.active_tab(), 1);
    app.handle_key(ctrl('b'));
    app.handle_key(ctrl('b'));
    assert_eq!(app.active_tab(), 0);
    app.handle_key(ctrl('f'));
    assert_eq!(app.active_tab(), 1);
    assert_eq!(
        app.handle_key(plain(KeyCode::Char('x'))),
        Command::Write { id: "a".to_string(), bytes: b"x".to_vec() }
    );
}

#[test]
fn the_main_tab_cannot_be_closed_or_merged() {
    let mut app = app();
    assert_eq!(app.handle_key(ctrl('w')), Command::Nothing);
    assert_eq!(app.handle_key(ctrl('g')), Command::Nothing);
    assert_eq!(app.close_current_tab(), Command::Nothing);
    assert_eq!(app.tabs().len(), 1);
    assert!(app.pty_manager().get("main").is_some());
}

#[test]
fn closing_a_tab_removes_session_and_tab() {
    let mut app = app();
    app.create_agent(agent("a", "one", AgentStatus::Running));
    app.create_agent(agent("b", "two", AgentStatus::Running));
    app.handle_key(ctrl('b'));
    assert_eq!(app.active_tab(), 1);
    assert_eq!(app.handle_key(ctrl('w')), Command::Closed { id: "a".to_string(), agent: true });
    assert_eq!(ids(&app), vec!["main", "b"]);
    assert_eq!(app.active_tab(), 1);
    assert!(app.pty_manager().get("a").is_none());
    assert!(app.pty_manager().get("b").is_some());
    // closing the last tab makes the one before it active
    assert_eq!(app.handle_key(ctrl('w')), Command::Closed { id: "b".to_string(), agent: true });
    assert_eq!(ids(&app), vec!["main"]);
    assert_eq!(app.active_tab(), 0);
}

#[test]
fn merging_asks_for_the_merge_and_leaves_the_tab() {
    let mut app = app();
    app.create_agent(agent("a", "one", AgentStatus::Running));
    assert_eq!(app.handle_key(ctrl('g')), Command::Merge { id: "a".to_string() });
    assert_eq!(ids(&app), vec!["main", "a"]);
    assert!(app.pty_manager().get("a").is_some());
    // once the merge is done the tab is closed
    assert_eq!(app.close_current_tab(), Command::Closed { id: "a".to_string(), agent: true });
    assert_eq!(ids(&app), vec!["main"]);
}

#[test]
fn output_reaches_the_session_it_is_for() {
    let mut app = app();
    app.create_agent(agent("a", "one", AgentStatus::Running));
    assert!(app.absorb("a", Some(b"output")));
    assert_eq!(app.pty_manager().get("a").unwrap().screen_rows()[0], "output");
    assert!(app.pty_manager().get("main").unwrap().screen_rows()[0].is_empty());
    assert!(!app.absorb("a", Some(b"")));
    assert!(!app.absorb("a", None));
    assert!(!app.absorb("zz", Some(b"output")));
}

#[test]
fn keys_for_a_session_that_is_gone_go_nowhere() {
    let mut app = app();
    // two tabs under one identifier share one session
    app.create_agent(agent("a", "one", AgentStatus::Running));
    app.create_agent(agent("a", "two", AgentStatus::Running));
    assert_eq!(ids(&app), vec!["main", "a", "a"]);
    assert_eq!(app.handle_key(ctrl('w')), Command::Closed { id: "a".to_string(), agent: true });
    assert_eq!(ids(&app), vec!["main", "a"]);
    assert_eq!(app.active_tab(), 1);
    assert!(app.pty_manager().get("a").is_none());
    assert_eq!(app.handle_key(plain(KeyCode::Char('x'))), Command::Nothing);
}

#[test]
fn a_tab_without_an_agent_is_closed_by_a_merge() {
    let mut app = app();
    app.create_agent(agent("a", "one", AgentStatus::Running));
    app.handle_key(ctrl('b'));
    // the main tab is left alone
    assert_eq!(app.handle_key(ctrl('g')), Command::Nothing);
    assert_eq!(ids(&app), vec!["main", "a"]);
}

#[test]
fn tab_titles_mark_the_main_tab() {
    let mut app = app();
    app.create_agent(agent("a", "a task with a long description", AgentStatus::Running));
    assert_eq!(app.tab_titles(), vec!["● Main", "a task with a …"]);
}

#[test]
fn status_line_lists_the_keys() {
    let app = app();
    assert_eq!(
        app.status_line(),
        " ^B Prev │ ^F Next │ ^N New │ ^G Merge │ ^W Close │ ^Q Quit"
    );
}

#[test]
fn the_manager_can_be_driven_through_the_coordinator() {
    let mut app = app_with(vec![agent("a", "one", AgentStatus::Running)]);
    let step = app.wt_manager_mut().update_status("a", AgentStatus::Completed);
    assert!(!step.is_final());
    assert!(app.wt_manager_mut().resume(Ok(String::new())).is_final());
    assert_eq!(app.wt_manager().get_agent("a").unwrap().status, AgentStatus::Completed);
    assert!(app.running_agents().is_empty());
}
