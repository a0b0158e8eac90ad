//! The coordinator: the tabs that a person sees, one for the main session
//! and one for each agent, and what each key press does to them.
//!
//! The coordinator decides and keeps the books. Whatever needs a process,
//! git or storage it hands to its caller as a `Command`.

use vstd::prelude::*;
use vstd::string::StringSliceAdditionalSpecFns;
use vstd::utf8::{decode_utf8, encode_utf8, is_char_boundary, valid_utf8};
use crate::keys::{key_bytes, key_to_bytes, KeyCode, KeyEvent};
use crate::pty::{
    fed_to, has_session, resized_all, spawned, without_session, Session, SessionView, MIN_COLS,
    MIN_ROWS,
};
use crate::worktree::{Agent, AgentStatus, AgentView};

verus! {

/// The last place at or before `limit` at which a character of the UTF-8
/// text `bytes` begins.
pub open spec fn cut_point(bytes: Seq<u8>, limit: int) -> int
    decreases limit,
{
    if limit <= 0 {
        0
    } else if is_char_boundary(bytes, limit) {
        limit
    } else {
        cut_point(bytes, limit - 1)
    }
}

/// `s` where its UTF-8 encoding has at most `max` bytes. Else the longest
/// start of `s` whose encoding has less than `max` bytes, and an ellipsis
/// behind it.
pub open spec fn truncated(s: Seq<char>, max: usize) -> Seq<char> {
    let bytes = encode_utf8(s);
    if bytes.len() <= max {
        s
    } else {
        decode_utf8(bytes.subrange(0, cut_point(bytes, max - 1))) + "…"@
    }
}

/// The cut point is a place at which a character begins, at or before the
/// limit.
proof fn lemma_cut_point(bytes: Seq<u8>, limit: int)
    requires
        valid_utf8(bytes),
        limit <= bytes.len(),
    ensures
        0 <= cut_point(bytes, limit),
        cut_point(bytes, limit) <= limit || limit < 0,
        is_char_boundary(bytes, cut_point(bytes, limit)),
    decreases limit,
{
    broadcast use vstd::utf8::is_char_boundary_start_end_of_seq;

    if limit > 0 && !is_char_boundary(bytes, limit) {
        lemma_cut_point(bytes, limit - 1);
    }
}

/// A shortened text is the text itself or a start of it with an ellipsis
/// behind it; and what is kept of the text takes less than `max` bytes.
pub proof fn lemma_truncated_keeps_a_start(s: Seq<char>, max: usize)
    ensures
        truncated(s, max) == s || exists|head: Seq<char>|
            #![trigger encode_utf8(head)]
            head.is_prefix_of(s) && truncated(s, max) == head + "…"@ && (encode_utf8(head).len()
                < max || encode_utf8(head).len() == 0),
{
    broadcast use vstd::utf8::encode_utf8_valid_utf8;
    broadcast use vstd::utf8::encode_utf8_decode_utf8;
    broadcast use vstd::utf8::decode_utf8_encode_utf8;

    let bytes = encode_utf8(s);
    if bytes.len() > max {
        let cut = cut_point(bytes, max - 1);
        lemma_cut_point(bytes, max - 1);
        vstd::utf8::valid_utf8_split(bytes, cut);
        vstd::utf8::decode_utf8_split(bytes, cut);
        let head = decode_utf8(bytes.subrange(0, cut));
        let tail = decode_utf8(bytes.subrange(cut, bytes.len() as int));
        assert(decode_utf8(bytes) == s);
        assert(s =~= head + tail);
        assert(head.is_prefix_of(s));
        assert(encode_utf8(head) == bytes.subrange(0, cut));
    }
}

/// Shortens a text to show it in little room: see `truncated`.
pub fn truncate(s: &str, max: usize) -> (short: String)
    ensures
        short@ == truncated(s@, max),
{
    broadcast use vstd::utf8::encode_utf8_valid_utf8;
    broadcast use vstd::utf8::encode_utf8_decode_utf8;
    broadcast use vstd::utf8::is_char_boundary_start_end_of_seq;

    let ghost bytes = encode_utf8(s@);
    if s.as_bytes().len() <= max {
        return s.to_owned();
    }
    let mut cut: usize = if max == 0 {
        0
    } else {
        max - 1
    };
    while !s.is_char_boundary(cut)
        invariant
            cut < s.spec_bytes().len(),
            bytes == s.spec_bytes(),
            valid_utf8(bytes),
            cut_point(bytes, cut as int) == cut_point(bytes, max - 1),
        decreases cut,
    {
        assert(cut > 0) by {
            assert(is_char_boundary(bytes, 0));
        }
        cut -= 1;
    }
    let (head, _) = s.split_at(cut);
    assert(head@ == decode_utf8(bytes.subrange(0, cut as int))) by {
        assert(encode_utf8(head@) == bytes.subrange(0, cut as int));
        assert(decode_utf8(encode_utf8(head@)) == head@);
    }
    let mut short = head.to_owned();
    short.append("…");
    short
}

/// How many bytes the name of an agent's tab may take.
pub const TAB_NAME_LIMIT: usize = 15;

/// The rows of the screen before its size is known.
pub const DEFAULT_ROWS: u16 = 24;

/// The columns of the screen before its size is known.
pub const DEFAULT_COLS: u16 = 80;

/// The rows of the screen that the tab bar and the status bar take.
pub const CHROME_ROWS: u16 = 2;

/// One tab: the main session or an agent.
#[derive(Debug, PartialEq, Eq)]
pub struct Tab {
    pub id: String,
    pub name: String,
    pub is_main: bool,
    pub agent: Option<Agent>,
}

/// A `Tab` as contracts see it.
pub struct TabView {
    pub id: Seq<char>,
    pub name: Seq<char>,
    pub is_main: bool,
    pub agent: Option<AgentView>,
}

impl View for Tab {
    type V = TabView;

    open spec fn view(&self) -> TabView {
        TabView {
            id: self.id@,
            name: self.name@,
            is_main: self.is_main,
            agent: match self.agent {
                Some(agent) => Some(agent@),
                None => None,
            },
        }
    }
}

/// Whether keys go to the active session or into the line that asks for a
/// task.
#[derive(Debug, PartialEq, Eq)]
pub enum InputMode {
    Normal,
    Input { prompt: String, buffer: String },
}

/// An `InputMode` as contracts see it.
pub enum InputModeView {
    Normal,
    Input { prompt: Seq<char>, buffer: Seq<char> },
}

impl View for InputMode {
    type V = InputModeView;

    open spec fn view(&self) -> InputModeView {
        match self {
            InputMode::Normal => InputModeView::Normal,
            InputMode::Input { prompt, buffer } => InputModeView::Input {
                prompt: prompt@,
                buffer: buffer@,
            },
        }
    }
}

/// What the caller of the coordinator has to do after a key press.
#[derive(Debug, PartialEq, Eq)]
pub enum Command {
    /// Nothing.
    Nothing,
    /// Create an agent for `task` and start its process; where both
    /// succeed, hand the agent to `create_agent`.
    CreateAgent { task: String },
    /// Merge the work of the agent `id`; where that succeeds, call
    /// `close_current_tab`.
    Merge { id: String },
    /// The tab of the session `id` is closed and the session is out of the
    /// registry: let go of its process, and where `agent` is set remove the
    /// agent of that name, whatever comes of it.
    Closed { id: String, agent: bool },
    /// Write `bytes` to the process of the session `id`.
    Write { id: String, bytes: Vec<u8> },
}

/// A `Command` as contracts see it.
pub enum CommandView {
    Nothing,
    CreateAgent { task: Seq<char> },
    Merge { id: Seq<char> },
    Closed { id: Seq<char>, agent: bool },
    Write { id: Seq<char>, bytes: Seq<u8> },
}

impl View for Command {
    type V = CommandView;

    open spec fn view(&self) -> CommandView {
        match self {
            Command::Nothing => CommandView::Nothing,
            Command::CreateAgent { task } => CommandView::CreateAgent { task: task@ },
            Command::Merge { id } => CommandView::Merge { id: id@ },
            Command::Closed { id, agent } => CommandView::Closed { id: id@, agent: *agent },
            Command::Write { id, bytes } => CommandView::Write { id: id@, bytes: bytes@ },
        }
    }
}

/// What a person sees of the coordinator, as contracts see it.
pub struct AppView {
    pub tabs: Seq<TabView>,
    pub active_tab: int,
    pub input_mode: InputModeView,
    pub should_quit: bool,
    pub term_rows: u16,
    pub term_cols: u16,
}

/// The tabs of a list, as contracts see them.
pub open spec fn tab_views(tabs: Seq<Tab>) -> Seq<TabView> {
    tabs.map_values(|t: Tab| t@)
}

/// The size of the sessions' screens on a terminal of the given size: what
/// the tab bar and the status bar leave, and never less than a screen can be.
pub open spec fn session_size_of(term_rows: u16, term_cols: u16) -> (u16, u16) {
    (
        if term_rows >= CHROME_ROWS + MIN_ROWS {
            (term_rows - CHROME_ROWS) as u16
        } else {
            MIN_ROWS
        },
        if term_cols >= MIN_COLS {
            term_cols
        } else {
            MIN_COLS
        },
    )
}

/// The tab of the main session.
pub open spec fn main_tab() -> TabView {
    TabView { id: "main"@, name: "Main"@, is_main: true, agent: None }
}

/// The tab of an agent.
pub open spec fn agent_tab(agent: AgentView) -> TabView {
    TabView {
        id: agent.id,
        name: truncated(agent.task, TAB_NAME_LIMIT),
        is_main: false,
        agent: Some(agent),
    }
}

/// The session of an agent, on a screen of the given size.
pub open spec fn agent_session(agent: AgentView, size: (u16, u16)) -> SessionView {
    SessionView {
        id: agent.id,
        workdir: agent.worktree,
        task: agent.task,
        rows: size.0,
        cols: size.1,
    }
}

/// The agents among `agents` that are running, in their order.
pub open spec fn running_among(agents: Seq<AgentView>) -> Seq<AgentView>
    decreases agents.len(),
{
    if agents.len() == 0 {
        Seq::empty()
    } else {
        let before = running_among(agents.drop_last());
        if agents.last().status == AgentStatus::Running {
            before.push(agents.last())
        } else {
            before
        }
    }
}

/// Closing the active tab: it leaves the tabs, and the tab before it
/// becomes active where it was the last.
pub open spec fn closed_tab(app: AppView) -> (AppView, CommandView) {
    let tab = app.tabs[app.active_tab];
    (
        AppView {
            tabs: app.tabs.remove(app.active_tab),
            active_tab: if app.active_tab >= app.tabs.len() - 1 {
                app.tabs.len() - 2
            } else {
                app.active_tab
            },
            ..app
        },
        CommandView::Closed { id: tab.id, agent: tab.agent is Some },
    )
}

/// Merging the active tab, unless it is the main one: the merge of its
/// agent is asked for; a tab without an agent is closed at once.
pub open spec fn merged_tab(app: AppView) -> (AppView, CommandView) {
    if app.active_tab > 0 {
        match app.tabs[app.active_tab].agent {
            Some(agent) => (app, CommandView::Merge { id: agent.id }),
            None => closed_tab(app),
        }
    } else {
        (app, CommandView::Nothing)
    }
}

/// Passing a key on to the active session: its bytes are to be written
/// where there are any and the session is live.
pub open spec fn forwarded(app: AppView, live: bool, key: KeyEvent) -> (AppView, CommandView) {
    if live && key_bytes(key).len() > 0 {
        (app, CommandView::Write { id: app.tabs[app.active_tab].id, bytes: key_bytes(key) })
    } else {
        (app, CommandView::Nothing)
    }
}

/// What a key press does while a task is being typed: Enter asks for an
/// agent where something was typed and leaves the line where nothing was,
/// Escape leaves the line, Backspace takes the last character away and a
/// character goes behind the others.
pub open spec fn typed(app: AppView, prompt: Seq<char>, buffer: Seq<char>, key: KeyEvent) -> (
    AppView,
    CommandView,
) {
    match key.code {
        KeyCode::Enter => if buffer.len() > 0 {
            (app, CommandView::CreateAgent { task: buffer })
        } else {
            (AppView { input_mode: InputModeView::Normal, ..app }, CommandView::Nothing)
        },
        KeyCode::Esc => (AppView { input_mode: InputModeView::Normal, ..app }, CommandView::Nothing),
        KeyCode::Backspace => (
            AppView {
                input_mode: InputModeView::Input {
                    prompt,
                    buffer: if buffer.len() > 0 {
                        buffer.drop_last()
                    } else {
                        buffer
                    },
                },
                ..app
            },
            CommandView::Nothing,
        ),
        KeyCode::Char(c) => (
            AppView { input_mode: InputModeView::Input { prompt, buffer: buffer.push(c) }, ..app },
            CommandView::Nothing,
        ),
        _ => (app, CommandView::Nothing),
    }
}

/// What a key press with Control does while no task is being typed: B and F
/// go to the tab before and behind, N opens the line that asks for a task,
/// W closes the active tab and G merges it unless it is the main one, Q and C
/// ask to quit, and any other key goes to the active session.
pub open spec fn controlled(app: AppView, live: bool, key: KeyEvent) -> (AppView, CommandView) {
    match key.code {
        KeyCode::Char(c) => if c == 'b' {
            (
                AppView {
                    active_tab: if app.active_tab > 0 {
                        app.active_tab - 1
                    } else {
                        app.active_tab
                    },
                    ..app
                },
                CommandView::Nothing,
            )
        } else if c == 'f' {
            (
                AppView {
                    active_tab: if app.active_tab < app.tabs.len() - 1 {
                        app.active_tab + 1
                    } else {
                        app.active_tab
                    },
                    ..app
                },
                CommandView::Nothing,
            )
        } else if c == 'n' {
            (
                AppView {
                    input_mode: InputModeView::Input { prompt: "Task: "@, buffer: Seq::empty() },
                    ..app
                },
                CommandView::Nothing,
            )
        } else if c == 'w' {
            if app.active_tab > 0 {
                closed_tab(app)
            } else {
                (app, CommandView::Nothing)
            }
        } else if c == 'g' {
            merged_tab(app)
        } else if c == 'q' || c == 'c' {
            (AppView { should_quit: true, ..app }, CommandView::Nothing)
        } else {
            forwarded(app, live, key)
        },
        _ => forwarded(app, live, key),
    }
}

/// What a key press does, where `live` tells whether the session of the
/// active tab is in the registry.
pub open spec fn key_outcome(app: AppView, live: bool, key: KeyEvent) -> (AppView, CommandView) {
    match app.input_mode {
        InputModeView::Input { prompt, buffer } => typed(app, prompt, buffer, key),
        InputModeView::Normal => if key.control {
            controlled(app, live, key)
        } else {
            forwarded(app, live, key)
        },
    }
}

/// No key press closes the first tab, which is the main one, or leaves the
/// coordinator without an active tab.
pub proof fn lemma_first_tab_stays(app: AppView, live: bool, key: KeyEvent)
    requires
        0 <= app.active_tab < app.tabs.len(),
    ensures
        ({
            let after = key_outcome(app, live, key).0;
            &&& 0 <= after.active_tab < after.tabs.len()
            &&& after.tabs[0] == app.tabs[0]
            &&& after.tabs.len() == app.tabs.len() || after.tabs.len() == app.tabs.len() - 1
        }),
{
}

/// The titles of the tabs: the name of each, with a mark before the main one.
pub open spec fn titles_of(tabs: Seq<TabView>) -> Seq<Seq<char>> {
    tabs.map_values(
        |t: TabView|
            if t.is_main {
                "● "@ + t.name
            } else {
                t.name
            },
    )
}

/// The text of the status bar: the keys that do something, or the line that
/// asks for a task with what was typed and a cursor.
pub open spec fn status_of(mode: InputModeView) -> Seq<char> {
    match mode {
        InputModeView::Input { prompt, buffer } => prompt + buffer + "█"@,
        InputModeView::Normal => " ^B Prev │ ^F Next │ ^N New │ ^G Merge │ ^W Close │ ^Q Quit"@,
    }
}

/// The coordinator: the tabs, which of them is active, the registry of
/// sessions, the manager of agents, and what is being typed.
pub struct App {
    tabs: Vec<Tab>,
    active_tab: usize,
    pty_manager: crate::pty::Manager,
    wt_manager: crate::worktree::Manager,
    input_mode: InputMode,
    should_quit: bool,
    term_rows: u16,
    term_cols: u16,
}

impl View for App {
    type V = AppView;

    closed spec fn view(&self) -> AppView {
        AppView {
            tabs: tab_views(self.tabs@),
            active_tab: self.active_tab as int,
            input_mode: self.input_mode@,
            should_quit: self.should_quit,
            term_rows: self.term_rows,
            term_cols: self.term_cols,
        }
    }
}

impl App {
    /// There is a tab, the active tab is one of them, and the registry and
    /// the manager are well formed.
    pub closed spec fn wf(&self) -> bool {
        &&& self.tabs.len() >= 1
        &&& self.active_tab < self.tabs.len()
        &&& self.pty_manager.wf()
        &&& self.wt_manager.wf()
    }

    /// The sessions in the registry.
    pub closed spec fn sessions(&self) -> Seq<Session> {
        self.pty_manager@
    }

    /// The manager of agents.
    pub closed spec fn manager(&self) -> crate::worktree::Manager {
        self.wt_manager
    }

    /// Whether the session of the active tab is in the registry.
    pub open spec fn active_is_live(&self) -> bool {
        has_session(self.sessions(), self@.tabs[self@.active_tab].id)
    }

    /// What being well formed means for what a person sees.
    pub proof fn lemma_wf(&self)
        requires
            self.wf(),
        ensures
            0 <= self@.active_tab < self@.tabs.len(),
            self.manager().wf(),
    {
    }

    /// The coordinator at its start: one tab, for the main session, which
    /// runs in the repository's root on a blank screen of the default size.
    pub fn new(wt_manager: crate::worktree::Manager) -> (app: App)
        requires
            wt_manager.wf(),
        ensures
            app.wf(),
            app.manager() == wt_manager,
            app@ == (AppView {
                tabs: seq![main_tab()],
                active_tab: 0,
                input_mode: InputModeView::Normal,
                should_quit: false,
                term_rows: DEFAULT_ROWS,
                term_cols: DEFAULT_COLS,
            }),
            spawned(
                Seq::empty(),
                app.sessions(),
                SessionView {
                    id: "main"@,
                    workdir: wt_manager@.repo_root,
                    task: "Main orchestrator"@,
                    rows: DEFAULT_ROWS,
                    cols: DEFAULT_COLS,
                },
            ),
    {
        let mut pty_manager = crate::pty::Manager::new();
        pty_manager.spawn(
            "main".to_owned(),
            wt_manager.repo_root().to_owned(),
            "Main orchestrator".to_owned(),
            DEFAULT_ROWS,
            DEFAULT_COLS,
        );
        let mut tabs: Vec<Tab> = Vec::new();
        tabs.push(Tab { id: "main".to_owned(), name: "Main".to_owned(), is_main: true, agent: None });
        assert(tab_views(tabs@) =~= seq![main_tab()]);
        App {
            tabs,
            active_tab: 0,
            pty_manager,
            wt_manager,
            input_mode: InputMode::Normal,
            should_quit: false,
            term_rows: DEFAULT_ROWS,
            term_cols: DEFAULT_COLS,
        }
    }

    /// The tabs, left to right.
    pub fn tabs(&self) -> (tabs: &Vec<Tab>)
        ensures
            tab_views(tabs@) == self@.tabs,
    {
        &self.tabs
    }

    /// The place of the active tab.
    pub fn active_tab(&self) -> (active: usize)
        ensures
            active == self@.active_tab,
    {
        self.active_tab
    }

    /// Whether a task is being typed, and what was typed.
    pub fn input_mode(&self) -> (mode: &InputMode)
        ensures
            mode@ == self@.input_mode,
    {
        &self.input_mode
    }

    /// Whether the person asked to quit.
    pub fn should_quit(&self) -> (quit: bool)
        ensures
            quit == self@.should_quit,
    {
        self.should_quit
    }

    /// The rows of the terminal.
    pub fn term_rows(&self) -> (rows: u16)
        ensures
            rows == self@.term_rows,
    {
        self.term_rows
    }

    /// The columns of the terminal.
    pub fn term_cols(&self) -> (cols: u16)
        ensures
            cols == self@.term_cols,
    {
        self.term_cols
    }

    /// The registry of sessions.
    pub fn pty_manager(&self) -> (registry: &crate::pty::Manager)
        ensures
            registry@ == self.sessions(),
            self.wf() ==> registry.wf(),
    {
        &self.pty_manager
    }

    /// The manager of agents.
    pub fn wt_manager(&self) -> (manager: &crate::worktree::Manager)
        ensures
            *manager == self.manager(),
    {
        &self.wt_manager
    }

    /// The manager of agents, to run an operation on. The coordinator holds
    /// whatever the manager has become when the caller lets go of it.
    pub fn wt_manager_mut(&mut self) -> (manager: &mut crate::worktree::Manager)
        requires
            old(self).wf(),
        ensures
            *manager == old(self).manager(),
            final(self).manager() == *final(manager),
            final(self)@ == old(self)@,
            final(self).sessions() == old(self).sessions(),
            final(manager).wf() ==> final(self).wf(),
    {
        &mut self.wt_manager
    }

    /// Takes in what a read from the process of the session `id` came to,
    /// and tells whether to read on: see `pty::Manager::absorb`. Nothing but
    /// that session's screen changes.
    pub fn absorb(&mut self, id: &str, read: Option<&[u8]>) -> (read_on: bool)
        requires
            old(self).wf(),
        ensures
            final(self).wf(),
            final(self)@ == old(self)@,
            final(self).manager() == old(self).manager(),
            match read {
                Some(bytes) => if bytes@.len() > 0 {
                    read_on == has_session(old(self).sessions(), id@) && fed_to(
                        old(self).sessions(),
                        final(self).sessions(),
                        id@,
                        bytes@,
                    )
                } else {
                    !read_on && final(self).sessions() == old(self).sessions()
                },
                None => !read_on && final(self).sessions() == old(self).sessions(),
            },
    {
        self.pty_manager.absorb(id, read)
    }

    /// The size of the sessions' screens on the terminal as it is.
    pub fn session_size(&self) -> (size: (u16, u16))
        ensures
            size == session_size_of(self@.term_rows, self@.term_cols),
            size.0 >= MIN_ROWS,
            size.1 >= MIN_COLS,
    {
        let rows: u16 = if self.term_rows >= CHROME_ROWS + MIN_ROWS {
            self.term_rows - CHROME_ROWS
        } else {
            MIN_ROWS
        };
        let cols: u16 = if self.term_cols >= MIN_COLS {
            self.term_cols
        } else {
            MIN_COLS
        };
        (rows, cols)
    }

    /// The agents that are recorded as running, in the order of the
    /// snapshot: those whose sessions are to be started again.
    pub fn running_agents(&self) -> (running: Vec<Agent>)
        ensures
            crate::worktree::views_of(running@) == running_among(self.manager()@.state.agents),
    {
        let agents = self.wt_manager.state().agents();
        let ghost all = crate::worktree::views_of(agents@);
        let mut running: Vec<Agent> = Vec::new();
        let mut i: usize = 0;
        assert(all.take(0) =~= Seq::<AgentView>::empty());
        assert(crate::worktree::views_of(running@) =~= Seq::<AgentView>::empty());
        while i < agents.len()
            invariant
                i <= agents.len(),
                all == crate::worktree::views_of(agents@),
                crate::worktree::views_of(running@) == running_among(all.take(i as int)),
            decreases agents.len() - i,
        {
            proof {
                assert(all.take(i + 1).drop_last() =~= all.take(i as int));
                assert(all.take(i + 1).last() == agents@[i as int]@);
            }
            let ghost before = crate::worktree::views_of(running@);
            match agents[i].status {
                AgentStatus::Running => {
                    running.push(agents[i].clone());
                    assert(crate::worktree::views_of(running@) =~= before.push(agents@[i as int]@));
                },
                _ => {},
            }
            i += 1;
        }
        proof {
            assert(all.take(agents.len() as int) =~= all);
        }
        running
    }

    /// Shows an agent whose process was started again: registers a session
    /// for it, on a blank screen of the default size, and puts its tab
    /// behind the others. The active tab stays.
    pub fn restore_agent(&mut self, agent: &Agent)
        requires
            old(self).wf(),
        ensures
            final(self).wf(),
            final(self).manager() == old(self).manager(),
            final(self)@ == (AppView { tabs: old(self)@.tabs.push(agent_tab(agent@)), ..old(self)@ }),
            spawned(
                old(self).sessions(),
                final(self).sessions(),
                agent_session(agent@, (DEFAULT_ROWS, DEFAULT_COLS)),
            ),
    {
        self.pty_manager.spawn(
            agent.id.clone(),
            agent.worktree.clone(),
            agent.task.clone(),
            DEFAULT_ROWS,
            DEFAULT_COLS,
        );
        let tab = Tab {
            id: agent.id.clone(),
            name: truncate(agent.task.as_str(), TAB_NAME_LIMIT),
            is_main: false,
            agent: Some(agent.clone()),
        };
        let ghost before = tab_views(self.tabs@);
        self.tabs.push(tab);
        assert(tab_views(self.tabs@) =~= before.push(agent_tab(agent@)));
    }

    /// Shows an agent that was just created and whose process runs:
    /// registers a session for it, on a blank screen of the size that the
    /// terminal leaves, puts its tab behind the others and makes it the
    /// active one. The line that asked for the task is left.
    pub fn create_agent(&mut self, agent: Agent)
        requires
            old(self).wf(),
        ensures
            final(self).wf(),
            final(self).manager() == old(self).manager(),
            final(self)@ == (AppView {
                tabs: old(self)@.tabs.push(agent_tab(agent@)),
                active_tab: old(self)@.tabs.len() as int,
                input_mode: InputModeView::Normal,
                ..old(self)@
            }),
            spawned(
                old(self).sessions(),
                final(self).sessions(),
                agent_session(agent@, session_size_of(old(self)@.term_rows, old(self)@.term_cols)),
            ),
    {
        let size = self.session_size();
        self.pty_manager.spawn(
            agent.id.clone(),
            agent.worktree.clone(),
            agent.task.clone(),
            size.0,
            size.1,
        );
        let tab = Tab {
            id: agent.id.clone(),
            name: truncate(agent.task.as_str(), TAB_NAME_LIMIT),
            is_main: false,
            agent: Some(agent),
        };
        let ghost before = tab_views(self.tabs@);
        self.tabs.push(tab);
        assert(tab_views(self.tabs@) =~= before.push(agent_tab(agent@)));
        self.active_tab = self.tabs.len() - 1;
        self.input_mode = InputMode::Normal;
    }

    /// Takes note of the terminal's size and gives every session the screen
    /// that it leaves.
    pub fn resize(&mut self, rows: u16, cols: u16)
        requires
            old(self).wf(),
        ensures
            final(self).wf(),
            final(self).manager() == old(self).manager(),
            final(self)@ == (AppView { term_rows: rows, term_cols: cols, ..old(self)@ }),
            resized_all(
                old(self).sessions(),
                final(self).sessions(),
                session_size_of(rows, cols).0,
                session_size_of(rows, cols).1,
            ),
    {
        self.term_rows = rows;
        self.term_cols = cols;
        let size = self.session_size();
        self.pty_manager.resize_all(size.0, size.1);
    }

    /// Closes the active tab unless it is the main one: takes its session
    /// out of the registry and then the tab out of the tabs. What is left to
    /// do is in the command.
    pub fn close_current_tab(&mut self) -> (command: Command)
        requires
            old(self).wf(),
        ensures
            final(self).wf(),
            final(self).manager() == old(self).manager(),
            if old(self)@.active_tab == 0 {
                &&& final(self)@ == old(self)@
                &&& command@ == CommandView::Nothing
                &&& final(self).sessions() == old(self).sessions()
            } else {
                &&& (final(self)@, command@) == closed_tab(old(self)@)
                &&& final(self).sessions() == without_session(
                    old(self).sessions(),
                    old(self)@.tabs[old(self)@.active_tab].id,
                )
            },
    {
        if self.active_tab == 0 {
            return Command::Nothing;
        }
        let ghost before = tab_views(self.tabs@);
        let tab = self.tabs.remove(self.active_tab);
        assert(tab_views(self.tabs@) =~= before.remove(self.active_tab as int));
        assert(before[self.active_tab as int] == tab@);
        self.pty_manager.remove(tab.id.as_str());
        if self.active_tab >= self.tabs.len() {
            self.active_tab = self.tabs.len() - 1;
        }
        let agent = tab.agent.is_some();
        Command::Closed { id: tab.id, agent }
    }

    /// Merges the active tab unless it is the main one: asks for the merge
    /// of its agent, or closes it at once where it has none.
    fn merge_current_tab(&mut self) -> (command: Command)
        requires
            old(self).wf(),
        ensures
            final(self).wf(),
            final(self).manager() == old(self).manager(),
            (final(self)@, command@) == merged_tab(old(self)@),
            final(self).sessions() == (match command@ {
                CommandView::Closed { id, .. } => without_session(old(self).sessions(), id),
                _ => old(self).sessions(),
            }),
    {
        if self.active_tab == 0 {
            return Command::Nothing;
        }
        let tab = &self.tabs[self.active_tab];
        assert(tab_views(self.tabs@)[self.active_tab as int] == tab@);
        let merging = match &tab.agent {
            Some(agent) => Some(agent.id.clone()),
            None => None,
        };
        match merging {
            Some(id) => Command::Merge { id },
            None => self.close_current_tab(),
        }
    }

    /// What goes to the active session for a key press.
    fn forward_key(&self, key: KeyEvent) -> (command: Command)
        requires
            self.wf(),
        ensures
            (self@, command@) == forwarded(self@, self.active_is_live(), key),
    {
        let tab = &self.tabs[self.active_tab];
        assert(tab_views(self.tabs@)[self.active_tab as int] == tab@);
        match self.pty_manager.get(tab.id.as_str()) {
            Some(_) => {
                let bytes = key_to_bytes(key);
                if bytes.len() > 0 {
                    Command::Write { id: tab.id.clone(), bytes }
                } else {
                    Command::Nothing
                }
            },
            None => Command::Nothing,
        }
    }

    /// Takes a key press: see `key_outcome` for what each key does. The
    /// manager of agents is left alone, and so is the registry, but for the
    /// session of a tab that the key closed.
    pub fn handle_key(&mut self, key: KeyEvent) -> (command: Command)
        requires
            old(self).wf(),
        ensures
            final(self).wf(),
            final(self).manager() == old(self).manager(),
            (final(self)@, command@) == key_outcome(old(self)@, old(self).active_is_live(), key),
            final(self).sessions() == (match command@ {
                CommandView::Closed { id, .. } => without_session(old(self).sessions(), id),
                _ => old(self).sessions(),
            }),
    {
        let typing = match self.input_mode {
            InputMode::Normal => false,
            InputMode::Input { .. } => true,
        };
        if typing {
            match key.code {
                KeyCode::Enter => {
                    let task = match &self.input_mode {
                        InputMode::Input { buffer, .. } => buffer.clone(),
                        InputMode::Normal => String::new(),
                    };
                    if task.as_str().is_empty() {
                        self.input_mode = InputMode::Normal;
                        Command::Nothing
                    } else {
                        Command::CreateAgent { task }
                    }
                },
                KeyCode::Esc => {
                    self.input_mode = InputMode::Normal;
                    Command::Nothing
                },
                KeyCode::Backspace => {
                    match &mut self.input_mode {
                        InputMode::Input { buffer, .. } => {
                            buffer.pop();
                        },
                        InputMode::Normal => {},
                    }
                    Command::Nothing
                },
                KeyCode::Char(c) => {
                    match &mut self.input_mode {
                        InputMode::Input { buffer, .. } => {
                            buffer.push(c);
                        },
                        InputMode::Normal => {},
                    }
                    Command::Nothing
                },
                _ => Command::Nothing,
            }
        } else if key.control {
            match key.code {
                KeyCode::Char(c) => {
                    if c == 'b' {
                        if self.active_tab > 0 {
                            self.active_tab -= 1;
                        }
                        Command::Nothing
                    } else if c == 'f' {
                        if self.active_tab < self.tabs.len() - 1 {
                            self.active_tab += 1;
                        }
                        Command::Nothing
                    } else if c == 'n' {
                        self.input_mode = InputMode::Input {
                            prompt: "Task: ".to_owned(),
                            buffer: String::new(),
                        };
                        Command::Nothing
                    } else if c == 'w' {
                        self.close_current_tab()
                    } else if c == 'g' {
                        self.merge_current_tab()
                    } else if c == 'q' || c == 'c' {
                        self.should_quit = true;
                        Command::Nothing
                    } else {
                        self.forward_key(key)
                    }
                },
                _ => self.forward_key(key),
            }
        } else {
            self.forward_key(key)
        }
    }

    /// The titles of the tabs, left to right.
    pub fn tab_titles(&self) -> (titles: Vec<String>)
        ensures
            titles.deep_view() == titles_of(self@.tabs),
    {
        let mut titles: Vec<String> = Vec::new();
        let mut i: usize = 0;
        while i < self.tabs.len()
            invariant
                i <= self.tabs.len(),
                titles.len() == i,
                forall|k: int|
                    0 <= k < i ==> (#[trigger] titles[k])@ == titles_of(tab_views(self.tabs@))[k],
            decreases self.tabs.len() - i,
        {
            let tab = &self.tabs[i];
            let title = if tab.is_main {
                let mut title = "● ".to_owned();
                title.append(tab.name.as_str());
                title
            } else {
                tab.name.clone()
            };
            titles.push(title);
            i += 1;
        }
        assert(titles.deep_view() =~= titles_of(self@.tabs));
        titles
    }

    /// The text of the status bar.
    pub fn status_line(&self) -> (line: String)
        ensures
            line@ == status_of(self@.input_mode),
    {
        match &self.input_mode {
            InputMode::Input { prompt, buffer } => {
                let mut line = prompt.clone();
                line.append(buffer.as_str());
                line.append("█");
                line
            },
            InputMode::Normal => " ^B Prev │ ^F Next │ ^N New │ ^G Merge │ ^W Close │ ^Q Quit".to_owned(),
        }
    }
}

} // verus!
