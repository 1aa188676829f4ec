use vstd::prelude::*;

use crate::keys::{KeyCode, KeyEvent, KeyModifiers};
use crate::text::texts;
use crate::traits::{CursorC, CursorView};

verus! {

/// The cursor of the list of notes: it moves between rows only.
pub struct BaseCusorController {
    pub cursor_x: usize,
    pub cursor_y: usize,
    pub min_height: usize,
}

impl View for BaseCusorController {
    type V = CursorView;

    open spec fn view(&self) -> CursorView {
        CursorView { x: self.cursor_x as int, y: self.cursor_y as int, left: 0, top: self.min_height as int }
    }
}

/// Where the list cursor stands after a key, over `lines`: Up goes one row up unless on
/// the first row; Down goes one row down while the stored row is below the number of lines.
pub open spec fn list_moved(c: CursorView, event: KeyEvent, lines: Seq<Seq<char>>) -> CursorView {
    match (event.code, event.modifiers) {
        (KeyCode::Up, KeyModifiers::Plain) => if c.y > c.top {
            CursorView { y: c.y - 1, ..c }
        } else {
            c
        },
        (KeyCode::Down, KeyModifiers::Plain) => if c.y < lines.len() {
            CursorView { y: c.y + 1, ..c }
        } else {
            c
        },
        _ => c,
    }
}

impl BaseCusorController {
    pub fn new(min_height: usize) -> (c: BaseCusorController)
        ensures
            c@ == (CursorView { x: 0, y: min_height as int, left: 0, top: min_height as int }),
    {
        BaseCusorController { cursor_x: 0, cursor_y: min_height, min_height }
    }

    fn move_up(&mut self)
        ensures
            final(self)@ == (if old(self)@.y > old(self)@.top {
                CursorView { y: old(self)@.y - 1, ..old(self)@ }
            } else {
                old(self)@
            }),
    {
        if self.cursor_y > self.min_height {
            self.cursor_y -= 1;
        }
    }

    fn move_down(&mut self, max_height: usize)
        ensures
            final(self)@ == (if old(self)@.y < max_height {
                CursorView { y: old(self)@.y + 1, ..old(self)@ }
            } else {
                old(self)@
            }),
    {
        if self.cursor_y < max_height {
            self.cursor_y += 1;
        }
    }
}

impl CursorC for BaseCusorController {
    open spec fn position(&self) -> CursorView {
        self@
    }

    open spec fn accepts(&self, event: KeyEvent, lines: Seq<Seq<char>>) -> bool {
        true
    }

    open spec fn moved(&self, event: KeyEvent, lines: Seq<Seq<char>>) -> CursorView {
        list_moved(self@, event, lines)
    }

    proof fn position_fits(&self) {
    }

    fn duplicate(&self) -> (d: Self) {
        BaseCusorController { cursor_x: self.cursor_x, cursor_y: self.cursor_y, min_height: self.min_height }
    }

    fn x_in_margin(&self) -> (b: bool) {
        true
    }

    fn y_in_margin(&self) -> (b: bool) {
        self.cursor_y >= self.min_height
    }

    fn can_take(&self, event: KeyEvent, lines: &Vec<String>) -> (b: bool) {
        true
    }

    fn get_x(&self) -> (x: usize) {
        self.cursor_x
    }

    fn get_y(&self) -> (y: usize) {
        self.cursor_y - self.min_height
    }

    fn change_x(&mut self, changer: usize) {
        self.cursor_x = changer;
    }

    fn change_y(&mut self, changer: usize) {
        self.cursor_y = changer
    }

    fn get_min_height(&self) -> (h: usize) {
        self.min_height
    }

    fn reset(&mut self, lines: &Vec<String>) {
        self.min_height = lines.len();
        self.cursor_x = 0;
        self.cursor_y = self.min_height;
    }

    fn take_input(&mut self, event: KeyEvent, lines: &Vec<String>) {
        match (event.code, event.modifiers) {
            (KeyCode::Up, KeyModifiers::Plain) => self.move_up(),
            (KeyCode::Down, KeyModifiers::Plain) => self.move_down(lines.len()),
            _ => {},
        }
    }
}


/// What Up and Down do on the list: Up goes one row up unless the cursor is on the first
/// title; Down goes one row down while the stored row is below the number of titles; the
/// column and the top margin never change, and every other key leaves the cursor.
pub proof fn law_list_arrow_keys(bc: BaseCusorController, event: KeyEvent, lines: Seq<Seq<char>>)
    ensures
        ({
            let c = bc.position();
            let m = bc.moved(event, lines);
            &&& m.x == c.x
            &&& m.left == c.left
            &&& m.top == c.top
            &&& (event.code == KeyCode::Up && event.modifiers == KeyModifiers::Plain) ==> m.y == (if c.y
                > c.top { c.y - 1 } else { c.y })
            &&& (event.code == KeyCode::Down && event.modifiers == KeyModifiers::Plain) ==> m.y == (if c.y
                < lines.len() { c.y + 1 } else { c.y })
            &&& !((event.code == KeyCode::Up || event.code == KeyCode::Down) && event.modifiers
                == KeyModifiers::Plain) ==> m == c
        }),
{
}

} // verus!
