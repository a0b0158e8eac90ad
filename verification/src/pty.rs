//! Terminal sessions: the screen that each agent's terminal shows, kept up to
//! date from the bytes its process writes, and the registry of the sessions
//! that are live.
//!
//! The screen is emulated by `vt100`. The process and its pseudo-terminal
//! belong to the caller, who feeds what the process writes to `process`.

use vstd::prelude::*;
use crate::text::{string_of, trimmed_end, trimmed_end_len};

verus! {

/// The fewest rows a screen can have.
pub const MIN_ROWS: u16 = 1;

/// The fewest columns a screen can have.
pub const MIN_COLS: u16 = 1;

/// How many rows that scrolled off the screen are kept.
pub const SCROLLBACK: usize = 1000;

/// The emulator of one screen: a `vt100::Parser`. What is known of it is
/// what the functions below claim of `vt100`.
#[verifier::external_body]
pub struct Emulator {
    parser: vt100::Parser,
}

/// The size of the emulated screen: its rows, then its columns.
pub uninterp spec fn screen_size(p: Emulator) -> (u16, u16);

/// What the cells of the emulated screen hold: for each cell that exists,
/// under its row and its column, the text in it.
pub uninterp spec fn screen_cells(p: Emulator) -> Map<(u16, u16), Seq<char>>;

/// What `vt100::Screen::contents` returns: the text on the emulated screen.
pub uninterp spec fn screen_text(p: Emulator) -> Seq<char>;

/// The emulator that `vt100::Parser::process` leaves: `p` after it has
/// interpreted `bytes`.
pub uninterp spec fn fed(p: Emulator, bytes: Seq<u8>) -> Emulator;

/// The emulator that `vt100::Parser::set_size` leaves: `p` with a screen of
/// `rows` rows and `cols` columns.
pub uninterp spec fn resized(p: Emulator, rows: u16, cols: u16) -> Emulator;

/// `vt100::Parser::new` makes an emulator whose screen has the given size
/// and whose cells all exist and are empty.
#[verifier::external_body]
fn parser_new(rows: u16, cols: u16, scrollback: usize) -> (p: Emulator)
    requires
        rows >= MIN_ROWS,
        cols >= MIN_COLS,
    ensures
        screen_size(p) == (rows, cols),
        forall|r: u16, c: u16|
            r < rows && c < cols ==> #[trigger] screen_cells(p).dom().contains((r, c))
                && screen_cells(p)[(r, c)].len() == 0,
{
    let least = core::num::NonZeroU16::MIN;
    let parser = vt100::Parser::new(
        core::num::NonZeroU16::new(rows).unwrap_or(least),
        core::num::NonZeroU16::new(cols).unwrap_or(least),
        scrollback,
    );
    Emulator { parser }
}

/// `vt100::Parser::process` interprets the bytes, one after the other; the
/// size of the screen stays as it is.
#[verifier::external_body]
fn parser_process(p: &mut Emulator, bytes: &[u8])
    ensures
        *final(p) == fed(*old(p), bytes@),
        screen_size(*final(p)) == screen_size(*old(p)),
{
    p.parser.process(bytes)
}

/// `vt100::Parser::set_size` gives the screen the given size.
#[verifier::external_body]
fn parser_set_size(p: &mut Emulator, rows: u16, cols: u16)
    requires
        rows >= MIN_ROWS,
        cols >= MIN_COLS,
    ensures
        *final(p) == resized(*old(p), rows, cols),
        screen_size(*final(p)) == (rows, cols),
{
    let least = core::num::NonZeroU16::MIN;
    p.parser.set_size(
        core::num::NonZeroU16::new(rows).unwrap_or(least),
        core::num::NonZeroU16::new(cols).unwrap_or(least),
    )
}

/// `vt100::Screen::size` returns the size of the screen.
#[verifier::external_body]
fn parser_size(p: &Emulator) -> (size: (u16, u16))
    ensures
        size == screen_size(*p),
{
    let (rows, cols) = p.parser.screen().size();
    (rows.get(), cols.get())
}

/// `vt100::Screen::cell` returns the cell at a row and a column if it
/// exists, and `vt100::Cell::contents` the text in it.
#[verifier::external_body]
fn parser_cell(p: &Emulator, row: u16, col: u16) -> (text: Option<String>)
    ensures
        match text {
            Some(t) => screen_cells(*p).dom().contains((row, col)) && t@ == screen_cells(*p)[(
                row,
                col,
            )],
            None => !screen_cells(*p).dom().contains((row, col)),
        },
{
    match p.parser.screen().cell(row, col) {
        Some(cell) => Some(cell.contents().to_string()),
        None => None,
    }
}

/// `vt100::Screen::contents` returns the text on the screen.
#[verifier::external_body]
fn parser_contents(p: &Emulator) -> (text: String)
    ensures
        text@ == screen_text(*p),
{
    p.parser.screen().contents()
}

/// The character that a cell shows in a line of text: the first of its
/// text, or a space where the cell is empty or does not exist.
pub open spec fn cell_char(p: Emulator, row: u16, col: u16) -> char {
    if screen_cells(p).dom().contains((row, col)) && screen_cells(p)[(row, col)].len() > 0 {
        screen_cells(p)[(row, col)][0]
    } else {
        ' '
    }
}

/// The characters that the cells of a row show, one for each column.
pub open spec fn row_chars(p: Emulator, row: u16) -> Seq<char> {
    Seq::new(screen_size(p).1 as nat, |c: int| cell_char(p, row, c as u16))
}

/// The lines of text that the screen shows, one for each row, without the
/// white space at their ends.
pub open spec fn screen_lines(p: Emulator) -> Seq<Seq<char>> {
    Seq::new(screen_size(p).0 as nat, |r: int| trimmed_end(row_chars(p, r as u16)))
}

/// Every cell of the screen is empty.
pub open spec fn screen_blank(p: Emulator) -> bool {
    forall|r: u16, c: u16|
        r < screen_size(p).0 && c < screen_size(p).1 ==> #[trigger] screen_cells(p).dom().contains(
            (r, c),
        ) && screen_cells(p)[(r, c)].len() == 0
}

/// The size of a pseudo-terminal: its rows and columns, and its width and
/// height in pixels.
#[derive(Clone, Copy, Debug, PartialEq, Eq, Structural)]
pub struct Geometry {
    pub rows: u16,
    pub cols: u16,
    pub pixel_width: u16,
    pub pixel_height: u16,
}

/// What is started for a session: a program, the directory it runs in, the
/// terminal type it is told, and the size of its pseudo-terminal.
#[derive(Debug, PartialEq, Eq)]
pub struct Launch {
    pub program: String,
    pub workdir: String,
    pub term: String,
    pub geometry: Geometry,
}

/// A `Launch` as contracts see it.
pub struct LaunchView {
    pub program: Seq<char>,
    pub workdir: Seq<char>,
    pub term: Seq<char>,
    pub geometry: Geometry,
}

impl View for Launch {
    type V = LaunchView;

    open spec fn view(&self) -> LaunchView {
        LaunchView {
            program: self.program@,
            workdir: self.workdir@,
            term: self.term@,
            geometry: self.geometry,
        }
    }
}

/// The size of a pseudo-terminal of `rows` rows and `cols` columns: its
/// size in pixels is left at zero.
pub fn geometry(rows: u16, cols: u16) -> (size: Geometry)
    ensures
        size == (Geometry { rows, cols, pixel_width: 0, pixel_height: 0 }),
{
    Geometry { rows, cols, pixel_width: 0, pixel_height: 0 }
}

/// What is started for a session in `workdir` on a screen of `rows` rows
/// and `cols` columns: the agents' program, told that it talks to a terminal
/// of 256 colours.
pub fn launch_plan(program: &str, workdir: &str, rows: u16, cols: u16) -> (plan: Launch)
    ensures
        plan@ == (LaunchView {
            program: program@,
            workdir: workdir@,
            term: "xterm-256color"@,
            geometry: Geometry { rows, cols, pixel_width: 0, pixel_height: 0 },
        }),
{
    Launch {
        program: program.to_owned(),
        workdir: workdir.to_owned(),
        term: "xterm-256color".to_owned(),
        geometry: geometry(rows, cols),
    }
}

/// The terminal of one agent, or of the main session: what it is for, and
/// the screen it shows.
pub struct Session {
    id: String,
    workdir: String,
    task: String,
    parser: Emulator,
    rows: u16,
    cols: u16,
}

/// What a `Session` is for and how large it is, as contracts see it.
pub struct SessionView {
    pub id: Seq<char>,
    pub workdir: Seq<char>,
    pub task: Seq<char>,
    pub rows: u16,
    pub cols: u16,
}

impl View for Session {
    type V = SessionView;

    closed spec fn view(&self) -> SessionView {
        SessionView {
            id: self.id@,
            workdir: self.workdir@,
            task: self.task@,
            rows: self.rows,
            cols: self.cols,
        }
    }
}

impl Session {
    /// The screen is as large as the session says, and no smaller than the
    /// emulator can handle.
    pub closed spec fn wf(&self) -> bool {
        &&& self.rows >= MIN_ROWS
        &&& self.cols >= MIN_COLS
        &&& screen_size(self.parser) == (self.rows, self.cols)
    }

    /// The emulator that keeps the screen.
    pub closed spec fn emulator(&self) -> Emulator {
        self.parser
    }

    /// The lines of text that the screen shows, one for each row.
    pub open spec fn lines(&self) -> Seq<Seq<char>> {
        screen_lines(self.emulator())
    }

    /// The text on the screen as a whole.
    pub open spec fn text(&self) -> Seq<char> {
        screen_text(self.emulator())
    }

    /// Every cell of the screen is empty.
    pub open spec fn blank(&self) -> bool {
        screen_blank(self.emulator())
    }

    /// The screen shows as many lines as the session has rows.
    pub proof fn lemma_lines_len(&self)
        requires
            self.wf(),
        ensures
            screen_size(self.emulator()) == (self@.rows, self@.cols),
            self.lines().len() == self@.rows,
            self@.rows >= MIN_ROWS,
            self@.cols >= MIN_COLS,
    {
    }

    /// A session with a blank screen of `rows` rows and `cols` columns.
    pub fn new(id: String, workdir: String, task: String, rows: u16, cols: u16) -> (session:
        Session)
        requires
            rows >= MIN_ROWS,
            cols >= MIN_COLS,
        ensures
            session.wf(),
            session.blank(),
            session.lines().len() == rows,
            session@ == (SessionView { id: id@, workdir: workdir@, task: task@, rows, cols }),
    {
        let parser = parser_new(rows, cols, SCROLLBACK);
        Session { id, workdir, task, parser, rows, cols }
    }

    /// The identifier of the session.
    pub fn id(&self) -> (id: &String)
        ensures
            id@ == self@.id,
    {
        &self.id
    }

    /// The directory in which the session's process runs.
    pub fn workdir(&self) -> (workdir: &String)
        ensures
            workdir@ == self@.workdir,
    {
        &self.workdir
    }

    /// The task that the session is for.
    pub fn task(&self) -> (task: &String)
        ensures
            task@ == self@.task,
    {
        &self.task
    }

    /// How many rows the screen has.
    pub fn rows(&self) -> (rows: u16)
        ensures
            rows == self@.rows,
    {
        self.rows
    }

    /// How many columns the screen has.
    pub fn cols(&self) -> (cols: u16)
        ensures
            cols == self@.cols,
    {
        self.cols
    }

    /// Brings the screen up to date with what the process wrote. The size of
    /// the screen and what the session is for stay as they are.
    pub fn process(&mut self, bytes: &[u8])
        requires
            old(self).wf(),
        ensures
            final(self).wf(),
            final(self)@ == old(self)@,
            final(self).emulator() == fed(old(self).emulator(), bytes@),
    {
        parser_process(&mut self.parser, bytes);
    }

    /// The text on the screen.
    pub fn screen(&self) -> (text: String)
        ensures
            text@ == self.text(),
    {
        parser_contents(&self.parser)
    }

    /// The lines of text that the screen shows, top to bottom: one for each
    /// row, made of the first character of each cell, a space for an empty
    /// cell, and without the white space at its end. A blank screen shows
    /// empty lines.
    pub fn screen_rows(&self) -> (lines: Vec<String>)
        requires
            self.wf(),
        ensures
            lines.deep_view() == self.lines(),
            lines.len() == self@.rows,
            self.blank() ==> forall|i: int| 0 <= i < lines.len() ==> (#[trigger] lines[i])@.len() == 0,
    {
        let size = parser_size(&self.parser);
        let rows: u16 = size.0;
        let cols: u16 = size.1;
        let mut lines: Vec<String> = Vec::new();
        let mut r: u16 = 0;
        while r < rows
            invariant
                r <= rows,
                (rows, cols) == screen_size(self.parser),
                lines.len() == r,
                forall|i: int|
                    0 <= i < r ==> (#[trigger] lines[i])@ == trimmed_end(
                        row_chars(self.parser, i as u16),
                    ),
                screen_blank(self.parser) ==> forall|i: int|
                    0 <= i < r ==> (#[trigger] lines[i])@.len() == 0,
            decreases rows - r,
        {
            let mut line: Vec<char> = Vec::new();
            let mut c: u16 = 0;
            while c < cols
                invariant
                    c <= cols,
                    r < rows,
                    (rows, cols) == screen_size(self.parser),
                    line.len() == c,
                    forall|k: int|
                        0 <= k < c ==> #[trigger] line[k] == cell_char(self.parser, r, k as u16),
                decreases cols - c,
            {
                let shown: char = match parser_cell(&self.parser, r, c) {
                    Some(text) => if text.as_str().is_empty() {
                        ' '
                    } else {
                        text.as_str().get_char(0)
                    },
                    None => ' ',
                };
                line.push(shown);
                c += 1;
            }
            assert(line@ =~= row_chars(self.parser, r));
            proof {
                if screen_blank(self.parser) {
                    assert forall|k: int| 0 <= k < line@.len() implies line@[k] == ' ' by {
                        assert(screen_cells(self.parser).dom().contains((r, k as u16)));
                    }
                }
            }
            let end = trimmed_end_len(&line);
            lines.push(string_of(&line, 0, end));
            r += 1;
        }
        assert(lines.deep_view() =~= screen_lines(self.parser));
        lines
    }

    /// Gives the screen `rows` rows and `cols` columns. From now on it shows
    /// `rows` lines.
    pub fn resize(&mut self, rows: u16, cols: u16)
        requires
            old(self).wf(),
            rows >= MIN_ROWS,
            cols >= MIN_COLS,
        ensures
            final(self).wf(),
            final(self)@ == (SessionView { rows, cols, ..old(self)@ }),
            final(self).emulator() == resized(old(self).emulator(), rows, cols),
            final(self).lines().len() == rows,
    {
        self.rows = rows;
        self.cols = cols;
        parser_set_size(&mut self.parser, rows, cols);
    }
}

/// Some session in `sessions` has the identifier `id`.
pub open spec fn has_session(sessions: Seq<Session>, id: Seq<char>) -> bool {
    exists|i: int| 0 <= i < sessions.len() && (#[trigger] sessions[i])@.id == id
}

/// The place in `sessions` of a session with the identifier `id`.
pub open spec fn session_index(sessions: Seq<Session>, id: Seq<char>) -> int {
    choose|i: int| 0 <= i < sessions.len() && (#[trigger] sessions[i])@.id == id
}

/// No two sessions in `sessions` have the same identifier.
pub open spec fn distinct_sessions(sessions: Seq<Session>) -> bool {
    forall|i: int, j: int|
        0 <= i < j < sessions.len() ==> (#[trigger] sessions[i])@.id != (#[trigger] sessions[j])@.id
}

/// Every session in `sessions` is well formed.
pub open spec fn sessions_wf(sessions: Seq<Session>) -> bool {
    forall|i: int| 0 <= i < sessions.len() ==> (#[trigger] sessions[i]).wf()
}

/// Among sessions with distinct identifiers, the place of an identifier is
/// the one place where it stands.
pub proof fn lemma_session_index(sessions: Seq<Session>, i: int)
    requires
        distinct_sessions(sessions),
        0 <= i < sessions.len(),
    ensures
        has_session(sessions, sessions[i]@.id),
        session_index(sessions, sessions[i]@.id) == i,
{
    let id = sessions[i]@.id;
    let k = session_index(sessions, id);
    if k < i {
        assert(sessions[k]@.id != sessions[i]@.id);
    } else if i < k {
        assert(sessions[i]@.id != sessions[k]@.id);
    }
}

/// `after` is `before` with a blank session of the given description put
/// in: in the place of the session with its identifier where there was one,
/// behind the others where there was none.
pub open spec fn spawned(before: Seq<Session>, after: Seq<Session>, made: SessionView) -> bool {
    &&& has_session(after, made.id)
    &&& {
        let i = session_index(after, made.id);
        let session = after[i];
        &&& session.blank()
        &&& session.wf()
        &&& session@ == made
        &&& if has_session(before, made.id) {
            i == session_index(before, made.id) && after == before.update(i, session)
        } else {
            after == before.push(session)
        }
    }
}

/// `sessions` without the session that has the identifier `id`.
pub open spec fn without_session(sessions: Seq<Session>, id: Seq<char>) -> Seq<Session> {
    if has_session(sessions, id) {
        sessions.remove(session_index(sessions, id))
    } else {
        sessions
    }
}

/// `after` is `before` with every screen given `rows` rows and `cols`
/// columns, and so showing `rows` lines.
pub open spec fn resized_all(before: Seq<Session>, after: Seq<Session>, rows: u16, cols: u16) -> bool {
    &&& after.len() == before.len()
    &&& forall|i: int|
        0 <= i < before.len() ==> (#[trigger] after[i])@ == (SessionView { rows, cols, ..before[i]@ })
            && after[i].emulator() == resized(before[i].emulator(), rows, cols)
            && after[i].lines().len() == rows
}

/// `after` is `before` with the screen of the session `id` brought up to
/// date with `bytes`, where there is such a session.
pub open spec fn fed_to(before: Seq<Session>, after: Seq<Session>, id: Seq<char>, bytes: Seq<u8>) -> bool {
    &&& after.len() == before.len()
    &&& forall|i: int|
        0 <= i < before.len() ==> (#[trigger] after[i])@ == before[i]@ && if before[i]@.id == id {
            after[i].emulator() == fed(before[i].emulator(), bytes)
        } else {
            after[i] == before[i]
        }
}

/// The sessions that are live, each under its identifier.
pub struct Manager {
    sessions: Vec<Session>,
}

impl View for Manager {
    type V = Seq<Session>;

    closed spec fn view(&self) -> Seq<Session> {
        self.sessions@
    }
}

impl Manager {
    /// The sessions are well formed and no two share an identifier.
    pub open spec fn wf(&self) -> bool {
        sessions_wf(self@) && distinct_sessions(self@)
    }

    /// A registry without sessions.
    pub fn new() -> (manager: Manager)
        ensures
            manager.wf(),
            manager@ == Seq::<Session>::empty(),
    {
        let manager = Manager { sessions: Vec::new() };
        assert(manager@ =~= Seq::<Session>::empty());
        manager
    }

    /// How many sessions are live.
    pub fn len(&self) -> (n: usize)
        ensures
            n == self@.len(),
    {
        self.sessions.len()
    }

    /// The place of the session `id`, if there is one.
    fn find(&self, id: &str) -> (place: Option<usize>)
        ensures
            match place {
                Some(i) => i < self@.len() && self@[i as int]@.id == id@ && has_session(
                    self@,
                    id@,
                ),
                None => !has_session(self@, id@),
            },
            distinct_sessions(self@) && place is Some ==> session_index(self@, id@) == place->0,
    {
        let n: usize = self.sessions.len();
        let mut i: usize = 0;
        while i < n
            invariant
                i <= n,
                n == self.sessions.len(),
                forall|a: int| 0 <= a < i ==> (#[trigger] self.sessions@[a])@.id != id@,
            decreases n - i,
        {
            if self.sessions[i].id().as_str().eq(id) {
                proof {
                    if distinct_sessions(self@) {
                        lemma_session_index(self@, i as int);
                    }
                }
                return Some(i);
            }
            i += 1;
        }
        None
    }

    /// Registers a session with a blank screen under `id`, in the place of
    /// the session that had this identifier where there was one.
    pub fn spawn(&mut self, id: String, workdir: String, task: String, rows: u16, cols: u16)
        requires
            old(self).wf(),
            rows >= MIN_ROWS,
            cols >= MIN_COLS,
        ensures
            final(self).wf(),
            spawned(
                old(self)@,
                final(self)@,
                SessionView { id: id@, workdir: workdir@, task: task@, rows, cols },
            ),
    {
        let found = self.find(id.as_str());
        let session = Session::new(id, workdir, task, rows, cols);
        let ghost before = self@;
        match found {
            Some(i) => {
                self.sessions.set(i, session);
                proof {
                    let after = self@;
                    assert forall|a: int, b: int| 0 <= a < b < after.len() implies after[a]@.id
                        != after[b]@.id by {
                        assert(before[a]@.id != before[b]@.id);
                    }
                    assert forall|a: int| 0 <= a < after.len() implies (#[trigger] after[a]).wf() by {
                        if a != i {
                            assert(before[a].wf());
                        }
                    }
                    lemma_session_index(after, i as int);
                }
            },
            None => {
                self.sessions.push(session);
                proof {
                    let after = self@;
                    let i = before.len() as int;
                    assert forall|a: int, b: int| 0 <= a < b < after.len() implies after[a]@.id
                        != after[b]@.id by {
                        if b < before.len() {
                            assert(before[a]@.id != before[b]@.id);
                        } else {
                            assert(before[a]@.id == after[a]@.id);
                        }
                    }
                    assert forall|a: int| 0 <= a < after.len() implies (#[trigger] after[a]).wf() by {
                        if a != i {
                            assert(before[a].wf());
                        }
                    }
                    lemma_session_index(after, i);
                }
            },
        }
    }

    /// The session `id`, if there is one.
    pub fn get(&self, id: &str) -> (found: Option<&Session>)
        requires
            self.wf(),
        ensures
            match found {
                Some(session) => has_session(self@, id@) && *session == self@[session_index(
                    self@,
                    id@,
                )] && session.wf() && session@.id == id@,
                None => !has_session(self@, id@),
            },
    {
        match self.find(id) {
            Some(i) => Some(&self.sessions[i]),
            None => None,
        }
    }

    /// The session `id`, to be changed in place, if there is one. The
    /// registry holds whatever the session has become when the caller lets
    /// go of it.
    pub fn get_mut(&mut self, id: &str) -> (found: Option<&mut Session>)
        requires
            old(self).wf(),
        ensures
            match found {
                Some(session) => has_session(old(self)@, id@) && *session == old(self)@[session_index(
                    old(self)@,
                    id@,
                )] && session.wf() && final(self)@ == old(self)@.update(
                    session_index(old(self)@, id@),
                    *final(session),
                ),
                None => !has_session(old(self)@, id@) && final(self)@ == old(self)@,
            },
    {
        match self.find(id) {
            Some(i) => Some(&mut self.sessions[i]),
            None => None,
        }
    }

    /// Brings the screen of the session `id` up to date with what its
    /// process wrote; tells whether there is such a session. The sessions,
    /// their order and their sizes stay as they are.
    pub fn process(&mut self, id: &str, bytes: &[u8]) -> (found: bool)
        requires
            old(self).wf(),
        ensures
            final(self).wf(),
            found == has_session(old(self)@, id@),
            fed_to(old(self)@, final(self)@, id@, bytes@),
    {
        let ghost before = self@;
        match self.find(id) {
            Some(i) => {
                assert(before[i as int].wf());
                self.sessions[i].process(bytes);
                proof {
                    let after = self@;
                    assert forall|a: int, b: int| 0 <= a < b < after.len() implies after[a]@.id
                        != after[b]@.id by {
                        assert(before[a]@.id != before[b]@.id);
                    }
                    assert forall|a: int| 0 <= a < after.len() implies (#[trigger] after[a]).wf() by {
                        if a != i {
                            assert(before[a].wf());
                        }
                    }
                }
                true
            },
            None => false,
        }
    }

    /// Takes in what a read from the process of the session `id` came to,
    /// and tells whether to read on. A read that failed (`None`) or found the
    /// end (no bytes) ends the reading, and so does a session that is gone;
    /// anything else is fed to the session's screen.
    pub fn absorb(&mut self, id: &str, read: Option<&[u8]>) -> (read_on: bool)
        requires
            old(self).wf(),
        ensures
            final(self).wf(),
            match read {
                Some(bytes) => if bytes@.len() > 0 {
                    read_on == has_session(old(self)@, id@) && fed_to(
                        old(self)@,
                        final(self)@,
                        id@,
                        bytes@,
                    )
                } else {
                    !read_on && final(self)@ == old(self)@
                },
                None => !read_on && final(self)@ == old(self)@,
            },
    {
        match read {
            Some(bytes) => {
                if bytes.len() > 0 {
                    self.process(id, bytes)
                } else {
                    false
                }
            },
            None => false,
        }
    }

    /// Takes the session `id` out of the registry, if there is one.
    pub fn remove(&mut self, id: &str) -> (removed: Option<Session>)
        requires
            old(self).wf(),
        ensures
            final(self).wf(),
            !has_session(final(self)@, id@),
            final(self)@ == without_session(old(self)@, id@),
            match removed {
                Some(session) => has_session(old(self)@, id@) && session == old(self)@[session_index(
                    old(self)@,
                    id@,
                )],
                None => !has_session(old(self)@, id@),
            },
    {
        let ghost before = self@;
        match self.find(id) {
            Some(i) => {
                let session = self.sessions.remove(i);
                proof {
                    let after = self@;
                    assert forall|a: int, b: int| 0 <= a < b < after.len() implies after[a]@.id
                        != after[b]@.id by {
                        let a0 = if a < i { a } else { a + 1 };
                        let b0 = if b < i { b } else { b + 1 };
                        assert(before[a0]@.id != before[b0]@.id);
                    }
                    assert forall|a: int| 0 <= a < after.len() implies (#[trigger] after[a]).wf()
                        && after[a]@.id != id@ by {
                        let a0 = if a < i { a } else { a + 1 };
                        assert(before[a0].wf());
                        if a0 < i {
                            assert(before[a0]@.id != before[i as int]@.id);
                        } else {
                            assert(before[i as int]@.id != before[a0]@.id);
                        }
                    }
                }
                Some(session)
            },
            None => None,
        }
    }

    /// Gives the screen of every session `rows` rows and `cols` columns. The
    /// sessions and their order stay as they are.
    pub fn resize_all(&mut self, rows: u16, cols: u16)
        requires
            old(self).wf(),
            rows >= MIN_ROWS,
            cols >= MIN_COLS,
        ensures
            final(self).wf(),
            resized_all(old(self)@, final(self)@, rows, cols),
    {
        let ghost before = self@;
        let n: usize = self.sessions.len();
        let mut i: usize = 0;
        while i < n
            invariant
                i <= n,
                n == self.sessions.len(),
                n == before.len(),
                sessions_wf(self@),
                forall|k: int|
                    0 <= k < i ==> (#[trigger] self@[k])@ == (SessionView {
                        rows,
                        cols,
                        ..before[k]@
                    }) && self@[k].emulator() == resized(before[k].emulator(), rows, cols)
                        && self@[k].lines().len() == rows,
                forall|k: int| i <= k < n ==> #[trigger] self@[k] == before[k],
                distinct_sessions(before),
                rows >= MIN_ROWS,
                cols >= MIN_COLS,
            decreases n - i,
        {
            let ghost current = self@;
            assert(current[i as int].wf());
            self.sessions[i].resize(rows, cols);
            proof {
                let after = self@;
                assert forall|a: int| 0 <= a < after.len() implies (#[trigger] after[a]).wf() by {
                    if a != i {
                        assert(current[a].wf());
                    }
                }
            }
            i += 1;
        }
        proof {
            let after = self@;
            assert forall|a: int, b: int| 0 <= a < b < after.len() implies after[a]@.id
                != after[b]@.id by {
                assert(before[a]@.id != before[b]@.id);
                assert(after[a]@.id == before[a]@.id);
                assert(after[b]@.id == before[b]@.id);
            }
        }
    }

    /// The identifiers of the sessions that are live.
    pub fn list(&self) -> (ids: Vec<&String>)
        ensures
            ids.len() == self@.len(),
            forall|i: int| 0 <= i < ids.len() ==> (#[trigger] ids[i])@ == self@[i]@.id,
    {
        let mut ids: Vec<&String> = Vec::new();
        let mut i: usize = 0;
        while i < self.sessions.len()
            invariant
                i <= self.sessions.len(),
                ids.len() == i,
                forall|k: int| 0 <= k < i ==> (#[trigger] ids[k])@ == self@[k]@.id,
            decreases self.sessions.len() - i,
        {
            ids.push(self.sessions[i].id());
            i += 1;
        }
        ids
    }
}

impl Default for Manager {
    fn default() -> (manager: Manager)
        ensures
            manager.wf(),
            manager@ == Seq::<Session>::empty(),
    {
        Manager::new()
    }
}

} // verus!
