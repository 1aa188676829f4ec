use vstd::prelude::*;

use crate::keys::{KeyCode, KeyEvent, KeyModifiers};
use crate::lines_controller::not_saved;
use crate::reader::{is_quit, Reader};
use crate::renderer::Renderer;
use crate::states::States;
use crate::supabase::{header_titles, Headers, Resp};
use crate::text::{join_terminated, split_newlines, split_newlines_exec, terminated, texts};
use crate::traits::{CursorC, CursorView, LineC, LinesView};

verus! {

/// Switches between the list of notes and the editor, and decides what is fetched from and
/// stored in the notes table.
pub struct StateController {
    pub state: States,
    pub renderer: Renderer,
    pub table: String,
}

/// What is to be done once a key has gone to the state controller.
pub enum Request {
    /// The key is not for the state controller: the screen's lines take it.
    Pass,
    /// The key was handled: the screen is cleared and drawn anew.
    Redraw,
    /// The titles of the table's notes are fetched and handed to `headers_fetched`;
    /// then the screen is cleared.
    FetchHeaders,
    /// The notes with this title are fetched and handed to `note_fetched`; then the
    /// screen is cleared.
    FetchNote(String),
    /// The text (second) is stored under the title (first); then `saved` is called and
    /// the screen is cleared.
    Save(String, String),
}

/// The other screen.
pub open spec fn toggled(s: States) -> States {
    match s {
        States::Setup => States::Editor,
        States::Editor => States::Setup,
    }
}

pub open spec fn is_switch(event: KeyEvent) -> bool {
    event.code == KeyCode::Char('b') && event.modifiers == KeyModifiers::Control
}

pub open spec fn is_open(event: KeyEvent) -> bool {
    event.code == KeyCode::Enter && event.modifiers == KeyModifiers::Plain
}

pub open spec fn is_save(event: KeyEvent) -> bool {
    event.code == KeyCode::Char('s') && event.modifiers == KeyModifiers::Control
}

pub open spec fn saved_status() -> Seq<char> {
    "Saved"@
}

/// The key can be handled: opening needs the cursor on a shown title and a header for the
/// other screen; saving needs a title.
pub open spec fn state_accepts(state: States, event: KeyEvent, lines: LinesView, cursor: CursorView, alt: LinesView) -> bool {
    &&& (is_open(event) && state == States::Setup) ==> {
        &&& cursor.y >= cursor.top
        &&& cursor.row() < lines.shown.len()
        &&& alt.header.len() >= 1
    }
    &&& (is_save(event) && state == States::Editor) ==> lines.header.len() >= 1
}

/// What the state controller does with a key: `state` and `alt` become `new_state` and
/// `new_alt`, and `r` is asked for.
///
/// Control-b switches screens; going back to the list asks for the titles anew.
/// Enter on the list opens the title under the cursor: the other screen takes it as its title
/// and the note is asked for. Control-s in the editor asks to store its shown lines, each
/// followed by a newline, under its title. Any other key, and Enter in the editor and
/// Control-s on the list, are passed on.
pub open spec fn state_handled(
    state: States,
    event: KeyEvent,
    lines: LinesView,
    cursor: CursorView,
    alt: LinesView,
    new_state: States,
    new_alt: LinesView,
    r: Request,
) -> bool {
    &&& is_switch(event) ==> {
        &&& new_state == toggled(state)
        &&& new_alt == alt
        &&& state == States::Setup ==> r is Redraw
        &&& state == States::Editor ==> r is FetchHeaders
    }
    &&& is_open(event) ==> if state == States::Setup {
        let title = lines.shown[cursor.row()];
        &&& new_state == States::Editor
        &&& new_alt == (LinesView { header: alt.header.update(0, title), ..alt })
        &&& r matches Request::FetchNote(t) && t@ == title
    } else {
        &&& new_state == state
        &&& new_alt == alt
        &&& r is Pass
    }
    &&& is_save(event) ==> {
        &&& new_state == state
        &&& new_alt == alt
        &&& state == States::Setup ==> r is Pass
        &&& state == States::Editor ==> (r matches Request::Save(h, content) && h@ == lines.header[0]
            && content@ == terminated(lines.shown))
    }
    &&& !is_switch(event) && !is_open(event) && !is_save(event) ==> {
        &&& new_state == state
        &&& new_alt == alt
        &&& r is Pass
    }
}

/// The key goes on to the lines of the screen in front.
pub open spec fn passes(state: States, event: KeyEvent) -> bool {
    &&& !is_switch(event)
    &&& !(is_open(event) && state == States::Setup)
    &&& !(is_save(event) && state == States::Editor)
}

/// The whole of a key can be handled: the cursor takes it over the shown lines, the state
/// controller takes it with the moved cursor, and, when it is passed on, so do the lines.
pub open spec fn key_accepts<L: LineC, C: CursorC, M: LineC>(
    state: States,
    event: KeyEvent,
    lines: &L,
    cursor: &C,
    alt: &M,
) -> bool {
    let moved = cursor.moved(event, lines.text().shown);
    &&& cursor.accepts(event, lines.text().shown)
    &&& state_accepts(state, event, lines.text(), moved, alt.text())
    &&& passes(state, event) ==> lines.accepts(event, moved)
}

impl StateController {
    pub fn new(state: States, table: String) -> (s: StateController)
        ensures
            s.state == state,
            s.table == table,
    {
        StateController { state, renderer: Renderer::new(), table }
    }

    /// Acts on the keys that change screens or store a note (see `state_handled`).
    pub fn take_input<L: LineC, C: CursorC, M: LineC, D: CursorC>(
        &mut self,
        event: KeyEvent,
        lines_controller: &L,
        alt_line: &mut M,
        cursor_controller: &C,
        alt_cursor: &D,
    ) -> (r: Request)
        requires
            state_accepts(
                old(self).state,
                event,
                lines_controller.text(),
                cursor_controller.position(),
                old(alt_line).text(),
            ),
        ensures
            final(self).table == old(self).table,
            state_handled(
                old(self).state,
                event,
                lines_controller.text(),
                cursor_controller.position(),
                old(alt_line).text(),
                final(self).state,
                final(alt_line).text(),
                r,
            ),
    {
        match (event.code, event.modifiers) {
            (KeyCode::Char('b'), KeyModifiers::Control) => {
                match self.state {
                    States::Setup => {
                        self.state = States::Editor;
                        Request::Redraw
                    },
                    States::Editor => {
                        self.state = States::Setup;
                        Request::FetchHeaders
                    },
                }
            },
            (KeyCode::Enter, KeyModifiers::Plain) => {
                match self.state {
                    States::Setup => {
                        self.state = States::Editor;
                        let lines = lines_controller.get_lines();
                        let y = cursor_controller.get_y();
                        let title = lines[y].clone();
                        alt_line.change_title(lines[y].clone());
                        Request::FetchNote(title)
                    },
                    States::Editor => Request::Pass,
                }
            },
            (KeyCode::Char('s'), KeyModifiers::Control) => {
                match self.state {
                    States::Setup => Request::Pass,
                    States::Editor => {
                        let content = join_terminated(lines_controller.get_lines());
                        let header = lines_controller.get_header()[0].clone();
                        Request::Save(header, content)
                    },
                }
            },
            _ => Request::Pass,
        }
    }

    /// Handles one key on the screen in front: whether to go on (not after Alt-q); the cursor
    /// moves over the shown lines; the state controller takes the key with the moved cursor;
    /// when it passes the key on, the lines take it. What the state controller asks for is
    /// returned.
    pub fn handle_key<L: LineC, C: CursorC, M: LineC, D: CursorC>(
        &mut self,
        reader: &Reader,
        event: KeyEvent,
        lines_controller: &mut L,
        cursor_controller: &mut C,
        alt_line: &mut M,
        alt_cursor: &D,
    ) -> (res: (bool, Request))
        requires
            key_accepts(old(self).state, event, old(lines_controller), old(cursor_controller), old(alt_line)),
        ensures
            res.0 == !is_quit(event),
            res.0 == !(event.code == KeyCode::Char('q') && event.modifiers == KeyModifiers::Alt),
            final(self).table == old(self).table,
            ({
                let moved = old(cursor_controller).moved(event, old(lines_controller).text().shown);
                &&& state_handled(
                    old(self).state,
                    event,
                    old(lines_controller).text(),
                    moved,
                    old(alt_line).text(),
                    final(self).state,
                    final(alt_line).text(),
                    res.1,
                )
                &&& (res.1 is Pass <==> passes(old(self).state, event))
                &&& if res.1 is Pass {
                    (final(lines_controller).text(), final(cursor_controller).position())
                        == old(lines_controller).edited(event, moved)
                } else {
                    &&& final(lines_controller).text() == old(lines_controller).text()
                    &&& final(cursor_controller).position() == moved
                }
            }),
    {
        let keep = reader.read_quit(event);
        cursor_controller.take_input(event, lines_controller.get_lines());
        let request = self.take_input(event, lines_controller, alt_line, cursor_controller, alt_cursor);
        if let Request::Pass = request {
            lines_controller.take_input(event, cursor_controller);
        }
        (keep, request)
    }

    /// Tells whether `handle_key` can take this key.
    pub fn can_handle<L: LineC, C: CursorC, M: LineC>(
        &self,
        event: KeyEvent,
        lines_controller: &L,
        cursor_controller: &C,
        alt_line: &M,
    ) -> (b: bool)
        ensures
            b == key_accepts(self.state, event, lines_controller, cursor_controller, alt_line),
    {
        if !cursor_controller.can_take(event, lines_controller.get_lines()) {
            return false;
        }
        let mut probe = cursor_controller.duplicate();
        probe.take_input(event, lines_controller.get_lines());
        if !self.can_take(event, lines_controller, alt_line, &probe) {
            return false;
        }
        let passing = match (event.code, event.modifiers, self.state) {
            (KeyCode::Char('b'), KeyModifiers::Control, _) => false,
            (KeyCode::Enter, KeyModifiers::Plain, States::Setup) => false,
            (KeyCode::Char('s'), KeyModifiers::Control, States::Editor) => false,
            _ => true,
        };
        !passing || lines_controller.can_take(event, &probe)
    }

    /// Tells whether `take_input` can take this key.
    pub fn can_take<L: LineC, C: CursorC, M: LineC>(
        &self,
        event: KeyEvent,
        lines_controller: &L,
        alt_line: &M,
        cursor_controller: &C,
    ) -> (b: bool)
        ensures
            b == state_accepts(
                self.state,
                event,
                lines_controller.text(),
                cursor_controller.position(),
                alt_line.text(),
            ),
    {
        match (event.code, event.modifiers, self.state) {
            (KeyCode::Enter, KeyModifiers::Plain, States::Setup) => {
                cursor_controller.y_in_margin() && cursor_controller.get_y()
                    < lines_controller.get_lines().len() && alt_line.get_header().len() >= 1
            },
            (KeyCode::Char('s'), KeyModifiers::Control, States::Editor) => {
                lines_controller.get_header().len() >= 1
            },
            _ => true,
        }
    }

    /// The fetched titles become the lines of the list.
    pub fn headers_fetched<M: LineC>(&self, header_list: &Vec<Headers>, alt_line: &mut M)
        ensures
            final(alt_line).text() == old(alt_line).with_lines(
                Seq::new(header_list@.len(), |i: int| header_list@[i].header@),
            ),
    {
        let headers = header_titles(header_list);
        alt_line.change_lines(headers);
    }

    /// The first fetched note is opened: its text, cut at its newlines, becomes the lines of
    /// the editor, the editor's status becomes "Not Saved", and its cursor goes to the start
    /// of the text.
    pub fn note_fetched<M: LineC, D: CursorC>(&self, header_list: &Vec<Resp>, alt_line: &mut M, alt_cursor: &mut D)
        requires
            header_list@.len() >= 1,
            old(alt_line).text().header.len() >= 2,
        ensures
            ({
                let opened = old(alt_line).with_lines(split_newlines(header_list@[0].content_text()));
                final(alt_line).text() == (LinesView {
                    header: opened.header.update(1, not_saved()),
                    ..opened
                })
            }),
            final(alt_cursor).position() == (CursorView {
                x: 0,
                y: old(alt_line).text().header.len() as int,
                left: old(alt_cursor).position().left,
                top: old(alt_line).text().header.len() as int,
            }),
    {
        let content = header_list[0].get_content();
        let final_content = split_newlines_exec(content);
        alt_line.change_lines(final_content);
        alt_line.change_status("Not Saved".to_owned());
        proof {
            reveal_strlit("Not Saved");
        }
        let header = alt_line.get_header();
        assert(texts(header@).len() == header@.len());
        alt_cursor.reset(header);
    }

    /// After the note is stored, the editor's status becomes "Saved".
    pub fn saved<L: LineC>(&self, lines_controller: &mut L)
        requires
            old(lines_controller).text().header.len() >= 2,
        ensures
            final(lines_controller).text() == (LinesView {
                header: old(lines_controller).text().header.update(1, saved_status()),
                ..old(lines_controller).text()
            }),
    {
        lines_controller.change_status("Saved".to_owned());
        proof {
            reveal_strlit("Saved");
        }
    }
}


/// Control-b twice comes back to the screen it started from.
pub proof fn law_switch_twice(s: States)
    ensures
        toggled(toggled(s)) == s,
{
}


/// What the keys do to the screens, spelled out: Control-b always changes screen, to the
/// editor from the list and to the list from the editor, asking for the titles only on the
/// way back; Enter on the list goes to the editor, gives it the title under the cursor (its
/// lines and the rest of its header untouched) and asks for the note with that title;
/// Control-s in the editor asks to store the shown lines, each followed by a newline, under
/// the title, and stays; every other key stays on its screen, touches nothing and is passed
/// on.
pub proof fn law_screen_keys(
    state: States,
    event: KeyEvent,
    lines: LinesView,
    cursor: CursorView,
    alt: LinesView,
    new_state: States,
    new_alt: LinesView,
    r: Request,
)
    requires
        state_handled(state, event, lines, cursor, alt, new_state, new_alt, r),
        alt.header.len() >= 1,
    ensures
        (event.code == KeyCode::Char('b') && event.modifiers == KeyModifiers::Control) ==> {
            &&& new_state != state
            &&& new_alt == alt
            &&& (state == States::Setup <==> r is Redraw)
            &&& (state == States::Editor <==> r is FetchHeaders)
        },
        (event.code == KeyCode::Enter && event.modifiers == KeyModifiers::Plain && state
            == States::Setup) ==> {
            &&& new_state == States::Editor
            &&& r matches Request::FetchNote(t) && t@ == lines.shown[cursor.row()]
                && new_alt.header[0] == t@
            &&& new_alt.header.len() == alt.header.len()
            &&& (forall|i: int| 1 <= i < alt.header.len() ==> new_alt.header[i] == alt.header[i])
            &&& new_alt.stored == alt.stored
            &&& new_alt.shown == alt.shown
        },
        (event.code == KeyCode::Char('s') && event.modifiers == KeyModifiers::Control && state
            == States::Editor) ==> {
            &&& new_state == States::Editor
            &&& new_alt == alt
            &&& r matches Request::Save(h, content) && h@ == lines.header[0] && content@ == terminated(
                lines.shown,
            )
        },
        !(event.code == KeyCode::Char('b') && event.modifiers == KeyModifiers::Control)
            && !(event.code == KeyCode::Enter && event.modifiers == KeyModifiers::Plain && state
            == States::Setup) && !(event.code == KeyCode::Char('s') && event.modifiers
            == KeyModifiers::Control && state == States::Editor) ==> {
            &&& new_state == state
            &&& new_alt == alt
            &&& r is Pass
        },
{
}

/// The statuses a note is given: "Saved" once stored, "Not Saved" once edited or opened.
pub proof fn law_statuses()
    ensures
        saved_status() == seq!['S', 'a', 'v', 'e', 'd'],
        not_saved() == seq!['N', 'o', 't', ' ', 'S', 'a', 'v', 'e', 'd'],
{
    reveal_strlit("Saved");
    reveal_strlit("Not Saved");
    assert(saved_status() =~= seq!['S', 'a', 'v', 'e', 'd']);
    assert(not_saved() =~= seq!['N', 'o', 't', ' ', 'S', 'a', 'v', 'e', 'd']);
}

} // verus!
