use vstd::prelude::*;

use crate::keys::KeyEvent;
use crate::text::texts;

verus! {

/// Where a cursor stands: its stored column and row, and the column and row at which the
/// text begins (its margins). `get_x` and `get_y` report the position relative to the margins.
pub struct CursorView {
    pub x: int,
    pub y: int,
    pub left: int,
    pub top: int,
}

impl CursorView {
    /// The column inside the text.
    pub open spec fn col(self) -> int {
        self.x - self.left
    }

    /// The row inside the text.
    pub open spec fn row(self) -> int {
        self.y - self.top
    }
}

/// What a lines controller holds: the header lines (title, status), the lines it keeps, and
/// the lines it shows.
pub struct LinesView {
    pub header: Seq<Seq<char>>,
    pub stored: Seq<Seq<char>>,
    pub shown: Seq<Seq<char>>,
}

/// A cursor over the lines on screen.
pub trait CursorC: Sized {
    spec fn position(&self) -> CursorView;

    /// The key can be handled over these lines without going outside them.
    spec fn accepts(&self, event: KeyEvent, lines: Seq<Seq<char>>) -> bool;

    /// Where the cursor stands after the key.
    spec fn moved(&self, event: KeyEvent, lines: Seq<Seq<char>>) -> CursorView;

    /// Every coordinate of a cursor is a machine word.
    proof fn position_fits(&self)
        ensures
            0 <= self.position().x <= usize::MAX,
            0 <= self.position().y <= usize::MAX,
            0 <= self.position().left <= usize::MAX,
            0 <= self.position().top <= usize::MAX,
    ;

    /// The stored column is not left of the left margin.
    fn x_in_margin(&self) -> (b: bool)
        ensures
            b == (self.position().x >= self.position().left),
    ;

    /// The stored row is not above the top margin.
    fn y_in_margin(&self) -> (b: bool)
        ensures
            b == (self.position().y >= self.position().top),
    ;

    /// A cursor standing where this one stands.
    fn duplicate(&self) -> (d: Self)
        ensures
            d == *self,
    ;

    /// Tells whether `take_input` can take this key over these lines.
    fn can_take(&self, event: KeyEvent, lines: &Vec<String>) -> (b: bool)
        ensures
            b == self.accepts(event, texts(lines@)),
    ;

    fn get_x(&self) -> (x: usize)
        requires
            self.position().x >= self.position().left,
        ensures
            x == self.position().col(),
    ;

    fn get_y(&self) -> (y: usize)
        requires
            self.position().y >= self.position().top,
        ensures
            y == self.position().row(),
    ;

    fn change_x(&mut self, changer: usize)
        ensures
            final(self).position() == (CursorView { x: changer as int, ..old(self).position() }),
    ;

    fn change_y(&mut self, changer: usize)
        ensures
            final(self).position() == (CursorView { y: changer as int, ..old(self).position() }),
    ;

    fn get_min_height(&self) -> (h: usize)
        ensures
            h == self.position().top,
    ;

    /// Puts the cursor at the start of the text, below the given header lines.
    fn reset(&mut self, lines: &Vec<String>)
        ensures
            final(self).position() == (CursorView {
                x: 0,
                y: lines@.len() as int,
                left: old(self).position().left,
                top: lines@.len() as int,
            }),
    ;

    fn take_input(&mut self, event: KeyEvent, lines: &Vec<String>)
        requires
            old(self).accepts(event, texts(lines@)),
        ensures
            final(self).position() == old(self).moved(event, texts(lines@)),
    ;
}

/// The lines of a screen, with their header.
pub trait LineC {
    spec fn text(&self) -> LinesView;

    /// What the controller holds once its lines are replaced by `lines`.
    spec fn with_lines(&self, lines: Seq<Seq<char>>) -> LinesView;

    /// The key can be handled with the cursor standing at `cursor`.
    spec fn accepts(&self, event: KeyEvent, cursor: CursorView) -> bool;

    /// What the controller holds after the key, and where the cursor stands.
    spec fn edited(&self, event: KeyEvent, cursor: CursorView) -> (LinesView, CursorView);

    /// Tells whether `take_input` can take this key with this cursor.
    fn can_take<C: CursorC>(&self, event: KeyEvent, cursor_controller: &C) -> (b: bool)
        ensures
            b == self.accepts(event, cursor_controller.position()),
    ;

    fn get_lines(&self) -> (lines: &Vec<String>)
        ensures
            texts(lines@) == self.text().shown,
    ;

    fn get_spec(&self) -> (lines: &Vec<String>)
        ensures
            texts(lines@) == self.text().stored,
    ;

    fn get_header(&self) -> (header: &Vec<String>)
        ensures
            texts(header@) == self.text().header,
    ;

    fn change_lines(&mut self, lines: Vec<String>)
        ensures
            final(self).text() == old(self).with_lines(texts(lines@)),
            final(self).text().header == old(self).text().header,
            final(self).text().stored == texts(lines@),
    ;

    fn change_title(&mut self, title: String)
        requires
            old(self).text().header.len() >= 1,
        ensures
            final(self).text() == (LinesView {
                header: old(self).text().header.update(0, title@),
                ..old(self).text()
            }),
    ;

    fn change_status(&mut self, status: String)
        requires
            old(self).text().header.len() >= 2,
        ensures
            final(self).text() == (LinesView {
                header: old(self).text().header.update(1, status@),
                ..old(self).text()
            }),
    ;

    fn take_input<C: CursorC>(&mut self, event: KeyEvent, cursor_controller: &mut C)
        requires
            old(self).accepts(event, old(cursor_controller).position()),
        ensures
            (final(self).text(), final(cursor_controller).position()) == old(self).edited(
                event,
                old(cursor_controller).position(),
            ),
    ;
}

} // verus!
