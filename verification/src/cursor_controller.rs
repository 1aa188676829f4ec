use vstd::prelude::*;

use crate::keys::{KeyCode, KeyEvent, KeyModifiers};
use crate::text::{byte_len, texts, width};
use crate::lines_controller::within;
use crate::traits::{CursorC, CursorView};

verus! {

/// The cursor of the note being edited. Rows start below `min_height` header lines and
/// columns start at `min_width`.
pub struct CursorController {
    pub cursor_x: usize,
    pub cursor_y: usize,
    pub min_height: usize,
    pub min_width: usize,
}

impl View for CursorController {
    type V = CursorView;

    open spec fn view(&self) -> CursorView {
        CursorView {
            x: self.cursor_x as int,
            y: self.cursor_y as int,
            left: self.min_width as int,
            top: self.min_height as int,
        }
    }
}

/// One row up, unless the cursor is on the first row of the text.
pub open spec fn step_up(c: CursorView) -> CursorView {
    if c.y > c.top {
        CursorView { y: c.y - 1, ..c }
    } else {
        c
    }
}

/// One row down, unless the cursor is already `max_row` rows into the text.
pub open spec fn step_down(c: CursorView, max_row: int) -> CursorView {
    if c.row() < max_row {
        CursorView { y: c.y + 1, ..c }
    } else {
        c
    }
}

/// One byte left, unless the cursor is at the left margin.
pub open spec fn step_left(c: CursorView) -> CursorView {
    if c.x > c.left {
        CursorView { x: c.x - 1, ..c }
    } else {
        c
    }
}

/// One byte right, unless the cursor has reached `max_col`.
pub open spec fn step_right(c: CursorView, max_col: int) -> CursorView {
    if c.x < max_col {
        CursorView { x: c.x + 1, ..c }
    } else {
        c
    }
}

/// The column pulled back to the end of line `i` (its length in bytes) when it lies beyond it.
pub open spec fn clamp_to(c: CursorView, lines: Seq<Seq<char>>, i: int) -> CursorView {
    if c.x > width(lines[i]) {
        CursorView { x: width(lines[i]), ..c }
    } else {
        c
    }
}

/// Before moving up: the column fits the line above, if there is one.
pub open spec fn fit_above(c: CursorView, lines: Seq<Seq<char>>) -> CursorView {
    if c.y != c.top {
        clamp_to(c, lines, c.row() - 1)
    } else {
        c
    }
}

/// Before moving down: the column fits the line below, if there is one.
pub open spec fn fit_below(c: CursorView, lines: Seq<Seq<char>>) -> CursorView {
    if c.row() != lines.len() - 1 {
        clamp_to(c, lines, c.row() + 1)
    } else {
        c
    }
}

/// Where the editing cursor stands after a key, over `lines`.
pub open spec fn editor_moved(c: CursorView, event: KeyEvent, lines: Seq<Seq<char>>) -> CursorView {
    match (event.code, event.modifiers) {
        (KeyCode::Up, KeyModifiers::Plain) => step_up(fit_above(c, lines)),
        (KeyCode::Down, KeyModifiers::Plain) => step_down(fit_below(c, lines), lines.len() - 1),
        (KeyCode::Left, KeyModifiers::Plain) => step_left(c),
        (KeyCode::Right, KeyModifiers::Plain) => step_right(c, width(lines[c.row()])),
        _ => c,
    }
}

/// The keys the editing cursor can take over `lines` without reading outside them.
pub open spec fn editor_accepts(c: CursorView, event: KeyEvent, lines: Seq<Seq<char>>) -> bool {
    match (event.code, event.modifiers) {
        (KeyCode::Up, KeyModifiers::Plain) => c.y == c.top || (c.y > c.top && c.row() <= lines.len()),
        (KeyCode::Down, KeyModifiers::Plain) => {
            &&& c.y >= c.top
            &&& lines.len() >= 1
            &&& c.row() <= lines.len() - 1
            &&& (c.row() < lines.len() - 1 ==> c.y < usize::MAX)
        },
        (KeyCode::Right, KeyModifiers::Plain) => c.y >= c.top && c.row() < lines.len(),
        _ => true,
    }
}

impl CursorController {
    pub fn new(min_height: usize, min_width: usize) -> (c: CursorController)
        ensures
            c@ == (CursorView { x: 0, y: min_height as int, left: min_width as int, top: min_height as int }),
    {
        CursorController { cursor_x: 0, cursor_y: min_height, min_height, min_width }
    }

    fn move_up(&mut self)
        ensures
            final(self)@ == step_up(old(self)@),
    {
        if self.cursor_y > self.min_height {
            self.cursor_y -= 1;
        }
    }

    fn move_down(&mut self, max_height: usize)
        requires
            old(self)@.y >= old(self)@.top,
            old(self)@.row() < max_height ==> old(self)@.y < usize::MAX,
        ensures
            final(self)@ == step_down(old(self)@, max_height as int),
    {
        if self.cursor_y - self.min_height < max_height {
            self.cursor_y += 1;
        }
    }

    fn check_up(&mut self, lines: &Vec<String>)
        requires
            old(self)@.y == old(self)@.top || (old(self)@.y > old(self)@.top && old(self)@.row()
                <= lines@.len()),
        ensures
            final(self)@ == fit_above(old(self)@, texts(lines@)),
    {
        if self.cursor_y != self.min_height {
            let above = byte_len(&lines[self.cursor_y - self.min_height - 1]);
            if self.cursor_x > above {
                self.cursor_x = above;
            }
        }
    }

    fn check_down(&mut self, lines: &Vec<String>)
        requires
            old(self)@.y >= old(self)@.top,
            lines@.len() >= 1,
            old(self)@.row() <= lines@.len() - 1,
        ensures
            final(self)@ == fit_below(old(self)@, texts(lines@)),
    {
        if self.cursor_y - self.min_height != lines.len() - 1 {
            let below = byte_len(&lines[self.cursor_y - self.min_height + 1]);
            if self.cursor_x > below {
                self.cursor_x = below;
            }
        }
    }

    fn move_right(&mut self, max_width: usize)
        ensures
            final(self)@ == step_right(old(self)@, max_width as int),
    {
        if self.cursor_x < max_width {
            self.cursor_x += 1;
        }
    }

    fn move_left(&mut self)
        ensures
            final(self)@ == step_left(old(self)@),
    {
        if self.cursor_x > self.min_width {
            self.cursor_x -= 1;
        }
    }
}

impl CursorC for CursorController {
    open spec fn position(&self) -> CursorView {
        self@
    }

    open spec fn accepts(&self, event: KeyEvent, lines: Seq<Seq<char>>) -> bool {
        editor_accepts(self@, event, lines)
    }

    open spec fn moved(&self, event: KeyEvent, lines: Seq<Seq<char>>) -> CursorView {
        editor_moved(self@, event, lines)
    }

    proof fn position_fits(&self) {
    }

    fn duplicate(&self) -> (d: Self) {
        CursorController {
            cursor_x: self.cursor_x,
            cursor_y: self.cursor_y,
            min_height: self.min_height,
            min_width: self.min_width,
        }
    }

    fn x_in_margin(&self) -> (b: bool) {
        self.cursor_x >= self.min_width
    }

    fn y_in_margin(&self) -> (b: bool) {
        self.cursor_y >= self.min_height
    }

    fn can_take(&self, event: KeyEvent, lines: &Vec<String>) -> (b: bool) {
        match (event.code, event.modifiers) {
            (KeyCode::Up, KeyModifiers::Plain) => self.cursor_y == self.min_height || (self.cursor_y
                > self.min_height && self.cursor_y - self.min_height <= lines.len()),
            (KeyCode::Down, KeyModifiers::Plain) => {
                self.cursor_y >= self.min_height && lines.len() >= 1 && self.cursor_y
                    - self.min_height <= lines.len() - 1 && (self.cursor_y - self.min_height
                    >= lines.len() - 1 || self.cursor_y < usize::MAX)
            },
            (KeyCode::Right, KeyModifiers::Plain) => self.cursor_y >= self.min_height
                && self.cursor_y - self.min_height < lines.len(),
            _ => true,
        }
    }

    fn get_x(&self) -> (x: usize) {
        self.cursor_x - self.min_width
    }

    fn get_y(&self) -> (y: usize) {
        self.cursor_y - self.min_height
    }

    fn change_x(&mut self, changer: usize) {
        self.cursor_x = changer;
    }

    fn change_y(&mut self, changer: usize) {
        self.cursor_y = changer;
    }

    fn get_min_height(&self) -> (h: usize) {
        self.min_height
    }

    fn reset(&mut self, lines: &Vec<String>) {
        self.min_height = lines.len();
        self.cursor_x = 0;
        self.cursor_y = self.min_height;
    }

    fn take_input(&mut self, event: KeyEvent, lines: &Vec<String>) {
        proof {
            if event.code == KeyCode::Right && event.modifiers == KeyModifiers::Plain {
                assert(texts(lines@)[self@.row()] == lines@[self@.row()]@);
            }
        }
        match (event.code, event.modifiers) {
            (KeyCode::Up, KeyModifiers::Plain) => {
                self.check_up(lines);
                self.move_up()
            },
            (KeyCode::Down, KeyModifiers::Plain) => {
                self.check_down(lines);
                self.move_down(lines.len() - 1)
            },
            (KeyCode::Left, KeyModifiers::Plain) => self.move_left(),
            (KeyCode::Right, KeyModifiers::Plain) => {
                let width = byte_len(&lines[self.cursor_y - self.min_height]);
                self.move_right(width)
            },
            _ => {},
        }
    }
}


/// The editing cursor never goes above the first row of the text.
pub proof fn law_cursor_stays_below_top(c: CursorView, event: KeyEvent, lines: Seq<Seq<char>>)
    requires
        c.y >= c.top,
        editor_accepts(c, event, lines),
    ensures
        editor_moved(c, event, lines).y >= c.top,
        editor_moved(c, event, lines).top == c.top,
{
}


/// Every key leaves an editing cursor without a left margin inside the text: on a line, at
/// most at its end (in bytes). A cursor inside the text takes every key, short of a stored
/// row at the end of the machine word.
pub proof fn law_cursor_stays_within(c: CursorView, event: KeyEvent, lines: Seq<Seq<char>>)
    requires
        within(lines, c),
        c.left == 0,
        c.y < usize::MAX,
    ensures
        editor_accepts(c, event, lines),
        within(lines, editor_moved(c, event, lines)),
{
}


/// What each arrow key does to the editing cursor, in terms of its row and column:
/// Up goes to the row just above (if there is one) and Down to the row just below (if there
/// is one), each with the column pulled back to that line's byte length when it lies beyond;
/// Left and Right go one byte, not past the left margin or the line's end; keys held with
/// modifiers and every other key leave the cursor. The margins never change.
pub proof fn law_arrow_keys(cc: CursorController, event: KeyEvent, lines: Seq<Seq<char>>)
    requires
        cc.accepts(event, lines),
    ensures
        ({
            let c = cc.position();
            let m = cc.moved(event, lines);
            &&& m.left == c.left
            &&& m.top == c.top
            &&& (event.code == KeyCode::Up && event.modifiers == KeyModifiers::Plain) ==> if c.y > c.top {
                let w = width(lines[c.row() - 1]);
                &&& m.y == c.y - 1
                &&& m.row() == c.row() - 1
                &&& m.x == (if c.x > w { w } else { c.x })
            } else {
                m == c
            }
            &&& (event.code == KeyCode::Down && event.modifiers == KeyModifiers::Plain) ==> if c.row()
                < lines.len() - 1 {
                let w = width(lines[c.row() + 1]);
                &&& m.y == c.y + 1
                &&& m.row() == c.row() + 1
                &&& m.x == (if c.x > w { w } else { c.x })
            } else {
                m == c
            }
            &&& (event.code == KeyCode::Left && event.modifiers == KeyModifiers::Plain) ==> {
                &&& m.y == c.y
                &&& m.x == (if c.x > c.left { c.x - 1 } else { c.x })
            }
            &&& (event.code == KeyCode::Right && event.modifiers == KeyModifiers::Plain) ==> {
                &&& m.y == c.y
                &&& m.x == (if c.x < width(lines[c.row()]) { c.x + 1 } else { c.x })
            }
            &&& (event.modifiers != KeyModifiers::Plain || !(event.code == KeyCode::Up || event.code
                == KeyCode::Down || event.code == KeyCode::Left || event.code == KeyCode::Right))
                ==> m == c
        }),
{
}

} // verus!
