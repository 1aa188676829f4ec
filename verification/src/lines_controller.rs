use vstd::prelude::*;

use crate::keys::{KeyCode, KeyEvent, KeyModifiers};
use crate::text::{
    after, before, boundary, byte_len, at_boundary, concatenated, cut_after, cut_before, insert_at,
    insert_char, remove_at, remove_char, texts, width,
};
use crate::text::{utf8, law_remove_after_insert, lemma_cut, lemma_insert_at, lemma_remove_at, lemma_utf8_concat, lemma_utf8_pop_first};
use crate::traits::{CursorC, CursorView, LineC, LinesView};
use vstd::utf8::{encode_utf8_first_scalar, length_of_first_scalar, pop_first_scalar};

verus! {

/// The note being edited: its header (title, then status) and its lines.
pub struct LinesController {
    pub header: Vec<String>,
    pub lines: Vec<String>,
}

/// Letters the editor ignores when typed.
pub open spec fn is_ignored_letter(c: char) -> bool {
    c == 'å' || c == 'æ' || c == 'ø'
}

/// Enter: the line under the cursor is cut at the cursor's byte offset; what follows becomes
/// a new line below, and the cursor goes to its start.
pub open spec fn split_line(ls: Seq<Seq<char>>, c: CursorView) -> (Seq<Seq<char>>, CursorView) {
    let line = ls[c.row()];
    (
        ls.update(c.row(), before(line, c.col())).insert(c.row() + 1, after(line, c.col())),
        CursorView { x: 0, y: c.y + 1, ..c },
    )
}

/// Backspace: the character starting one byte before the cursor goes and the cursor moves
/// one byte back; at the start of a line other than the first, the line is joined to the one
/// above and the cursor goes to the join (the byte length of the line above).
pub open spec fn erase_back(ls: Seq<Seq<char>>, c: CursorView) -> (Seq<Seq<char>>, CursorView) {
    if c.col() != 0 {
        (ls.update(c.row(), remove_at(ls[c.row()], c.col() - 1)), CursorView { x: c.col() - 1, ..c })
    } else if c.row() != 0 {
        (
            ls.update(c.row() - 1, ls[c.row() - 1] + ls[c.row()]).remove(c.row()),
            CursorView { x: width(ls[c.row() - 1]), y: c.y - 1, ..c },
        )
    } else {
        (ls, c)
    }
}

/// Delete: the character starting at the cursor goes; at the end of a line other than the
/// last, the next line is joined to it. The cursor stays.
pub open spec fn erase_forward(ls: Seq<Seq<char>>, c: CursorView) -> Seq<Seq<char>> {
    if c.col() != width(ls[c.row()]) {
        ls.update(c.row(), remove_at(ls[c.row()], c.col()))
    } else if c.row() != ls.len() - 1 {
        ls.update(c.row(), ls[c.row()] + ls[c.row() + 1]).remove(c.row() + 1)
    } else {
        ls
    }
}

/// Typing: the character goes in at the cursor's byte offset and the cursor moves one byte on.
pub open spec fn type_char(ls: Seq<Seq<char>>, c: CursorView, ch: char) -> (Seq<Seq<char>>, CursorView) {
    (ls.update(c.row(), insert_at(ls[c.row()], c.col(), ch)), CursorView { x: c.col() + 1, ..c })
}

/// The lines and cursor after a key (the header is handled apart).
pub open spec fn note_edited(ls: Seq<Seq<char>>, event: KeyEvent, c: CursorView) -> (Seq<Seq<char>>, CursorView) {
    match (event.code, event.modifiers) {
        (KeyCode::Enter, KeyModifiers::Plain) => split_line(ls, c),
        (KeyCode::Backspace, KeyModifiers::Plain) => erase_back(ls, c),
        (KeyCode::Delete, KeyModifiers::Plain) => (erase_forward(ls, c), c),
        (KeyCode::Char(ch), _) => if is_ignored_letter(ch) {
            (ls, c)
        } else {
            type_char(ls, c, ch)
        },
        _ => (ls, c),
    }
}

/// The cursor stands inside the text: on a line, at most at its end (in bytes).
pub open spec fn within(ls: Seq<Seq<char>>, c: CursorView) -> bool {
    &&& c.x >= c.left
    &&& c.y >= c.top
    &&& c.row() < ls.len()
    &&& c.col() <= width(ls[c.row()])
}

/// The cursor stands inside the text, at the start of a character or at the line's end.
pub open spec fn on_text(ls: Seq<Seq<char>>, c: CursorView) -> bool {
    within(ls, c) && boundary(ls[c.row()], c.col())
}

/// The keys the note can take with the cursor at `c`: the line is read at a character
/// boundary and no offset leaves it.
pub open spec fn note_accepts(ls: Seq<Seq<char>>, event: KeyEvent, c: CursorView) -> bool {
    match (event.code, event.modifiers) {
        (KeyCode::Enter, KeyModifiers::Plain) => on_text(ls, c) && c.y + 1 <= usize::MAX,
        (KeyCode::Backspace, KeyModifiers::Plain) => c.x >= c.left && c.y >= c.top && (if c.col() != 0 {
            c.row() < ls.len() && c.col() - 1 < width(ls[c.row()]) && boundary(ls[c.row()], c.col() - 1)
        } else {
            c.row() != 0 ==> c.row() < ls.len()
        }),
        (KeyCode::Delete, KeyModifiers::Plain) => on_text(ls, c),
        (KeyCode::Char(ch), _) => is_ignored_letter(ch) || (on_text(ls, c) && c.col() + 1
            <= usize::MAX),
        _ => true,
    }
}

/// The status of a note changed since it was last stored.
pub open spec fn not_saved() -> Seq<char> {
    "Not Saved"@
}

impl LinesController {
    /// The cursor stands inside the text.
    fn cursor_on_text<C: CursorC>(&self, cursor_controller: &C) -> (b: bool)
        ensures
            b == on_text(texts(self.lines@), cursor_controller.position()),
    {
        if cursor_controller.x_in_margin() && cursor_controller.y_in_margin() {
            let y = cursor_controller.get_y();
            if y < self.lines.len() {
                assert(texts(self.lines@)[y as int] == self.lines@[y as int]@);
                cursor_controller.get_x() <= byte_len(&self.lines[y]) && at_boundary(
                    &self.lines[y],
                    cursor_controller.get_x(),
                )
            } else {
                false
            }
        } else {
            false
        }
    }

    pub fn new(lines: Vec<String>, header: Vec<String>) -> (l: LinesController)
        ensures
            l.header@ == header@,
            l.lines@ == lines@,
    {
        LinesController { header, lines }
    }

    fn add_line<C: CursorC>(&mut self, cursor_controller: &mut C)
        requires
            on_text(texts(old(self).lines@), old(cursor_controller).position()),
            old(cursor_controller).position().y + 1 <= usize::MAX,
        ensures
            final(self).header@ == old(self).header@,
            (texts(final(self).lines@), final(cursor_controller).position()) == split_line(
                texts(old(self).lines@),
                old(cursor_controller).position(),
            ),
    {
        let ghost ls = texts(self.lines@);
        let y = cursor_controller.get_y();
        let x = cursor_controller.get_x();
        assert(ls[y as int] == self.lines@[y as int]@);
        let part_2 = cut_after(&self.lines[y], x);
        assert(y < self.lines.len());
        self.lines.insert(y + 1, part_2);
        let part_1 = cut_before(&self.lines[y], x);
        self.lines.set(y, part_1);
        assert(texts(self.lines@) =~= split_line(ls, old(cursor_controller).position()).0);
        let below = cursor_controller.get_y() + cursor_controller.get_min_height() + 1;
        cursor_controller.change_y(below);
        cursor_controller.change_x(0);
    }

    fn typing<C: CursorC>(&mut self, char: char, cursor_controller: &mut C)
        requires
            on_text(texts(old(self).lines@), old(cursor_controller).position()),
            old(cursor_controller).position().col() + 1 <= usize::MAX,
        ensures
            final(self).header@ == old(self).header@,
            (texts(final(self).lines@), final(cursor_controller).position()) == type_char(
                texts(old(self).lines@),
                old(cursor_controller).position(),
                char,
            ),
    {
        let ghost ls = texts(self.lines@);
        let y = cursor_controller.get_y();
        let x = cursor_controller.get_x();
        assert(ls[y as int] == self.lines@[y as int]@);
        let line = insert_char(&self.lines[y], x, char);
        self.lines.set(y, line);
        assert(texts(self.lines@) =~= type_char(ls, old(cursor_controller).position(), char).0);
        cursor_controller.change_x(x + 1);
    }

    fn backspace<C: CursorC>(&mut self, cursor_controller: &mut C)
        requires
            note_accepts(
                texts(old(self).lines@),
                KeyEvent { code: KeyCode::Backspace, modifiers: KeyModifiers::Plain },
                old(cursor_controller).position(),
            ),
        ensures
            final(self).header@ == old(self).header@,
            (texts(final(self).lines@), final(cursor_controller).position()) == erase_back(
                texts(old(self).lines@),
                old(cursor_controller).position(),
            ),
    {
        let ghost ls = texts(self.lines@);
        let ghost c = old(cursor_controller).position();
        proof {
            cursor_controller.position_fits();
        }
        if cursor_controller.get_x() != 0 {
            let y = cursor_controller.get_y();
            let x = cursor_controller.get_x();
            assert(ls[y as int] == self.lines@[y as int]@);
            let line = remove_char(&self.lines[y], x - 1);
            self.lines.set(y, line);
            assert(texts(self.lines@) =~= erase_back(ls, c).0);
            cursor_controller.change_x(x - 1);
        } else if cursor_controller.get_y() + cursor_controller.get_min_height()
            != cursor_controller.get_min_height() {
            let y = cursor_controller.get_y();
            assert(ls[y - 1] == self.lines@[y - 1]@);
            assert(ls[y as int] == self.lines@[y as int]@);
            let above = byte_len(&self.lines[y - 1]);
            cursor_controller.change_x(above);
            let full_part = concatenated(&self.lines[y - 1], &self.lines[y]);
            self.lines.set(y - 1, full_part);
            self.lines.remove(y);
            assert(texts(self.lines@) =~= erase_back(ls, c).0);
            let above = cursor_controller.get_y() + cursor_controller.get_min_height() - 1;
            cursor_controller.change_y(above);
        }
    }

    fn delete<C: CursorC>(&mut self, cursor_controller: &C)
        requires
            on_text(texts(old(self).lines@), cursor_controller.position()),
        ensures
            final(self).header@ == old(self).header@,
            texts(final(self).lines@) == erase_forward(
                texts(old(self).lines@),
                cursor_controller.position(),
            ),
    {
        let ghost ls = texts(self.lines@);
        let ghost c = cursor_controller.position();
        let y = cursor_controller.get_y();
        let x = cursor_controller.get_x();
        assert(ls[y as int] == self.lines@[y as int]@);
        if x != byte_len(&self.lines[y]) {
            let line = remove_char(&self.lines[y], x);
            self.lines.set(y, line);
            assert(texts(self.lines@) =~= erase_forward(ls, c));
        } else if y != self.lines.len() - 1 {
            assert(ls[y + 1] == self.lines@[y + 1]@);
            let joined = concatenated(&self.lines[y], &self.lines[y + 1]);
            self.lines.set(y, joined);
            self.lines.remove(y + 1);
            assert(texts(self.lines@) =~= erase_forward(ls, c));
        }
    }
}

impl LineC for LinesController {
    open spec fn text(&self) -> LinesView {
        LinesView { header: texts(self.header@), stored: texts(self.lines@), shown: texts(self.lines@) }
    }

    open spec fn with_lines(&self, lines: Seq<Seq<char>>) -> LinesView {
        LinesView { header: texts(self.header@), stored: lines, shown: lines }
    }

    open spec fn accepts(&self, event: KeyEvent, cursor: CursorView) -> bool {
        self.header@.len() >= 2 && note_accepts(texts(self.lines@), event, cursor)
    }

    open spec fn edited(&self, event: KeyEvent, cursor: CursorView) -> (LinesView, CursorView) {
        let (ls, c) = note_edited(texts(self.lines@), event, cursor);
        (LinesView { header: texts(self.header@).update(1, not_saved()), stored: ls, shown: ls }, c)
    }

    fn can_take<C: CursorC>(&self, event: KeyEvent, cursor_controller: &C) -> (b: bool) {
        proof {
            cursor_controller.position_fits();
        }
        if self.header.len() < 2 {
            return false;
        }
        match (event.code, event.modifiers) {
            (KeyCode::Enter, KeyModifiers::Plain) => self.cursor_on_text(cursor_controller)
                && cursor_controller.get_y() < usize::MAX - cursor_controller.get_min_height(),
            (KeyCode::Backspace, KeyModifiers::Plain) => {
                if !(cursor_controller.x_in_margin() && cursor_controller.y_in_margin()) {
                    false
                } else if cursor_controller.get_x() != 0 {
                    let y = cursor_controller.get_y();
                    let x = cursor_controller.get_x();
                    if y < self.lines.len() {
                        assert(texts(self.lines@)[y as int] == self.lines@[y as int]@);
                        x - 1 < byte_len(&self.lines[y]) && at_boundary(&self.lines[y], x - 1)
                    } else {
                        false
                    }
                } else {
                    cursor_controller.get_y() == 0 || cursor_controller.get_y() < self.lines.len()
                }
            },
            (KeyCode::Delete, KeyModifiers::Plain) => self.cursor_on_text(cursor_controller),
            (KeyCode::Char(c), _) => c == 'å' || c == 'æ' || c == 'ø' || (self.cursor_on_text(
                cursor_controller,
            ) && cursor_controller.get_x() < usize::MAX),
            _ => true,
        }
    }

    fn get_lines(&self) -> (lines: &Vec<String>) {
        &self.lines
    }

    fn get_spec(&self) -> (lines: &Vec<String>) {
        &self.lines
    }

    fn get_header(&self) -> (header: &Vec<String>) {
        &self.header
    }

    fn change_lines(&mut self, lines: Vec<String>) {
        self.lines = lines;
    }

    fn change_title(&mut self, title: String) {
        self.header.set(0, title);
        assert(texts(self.header@) =~= texts(old(self).header@).update(0, title@));
    }

    fn change_status(&mut self, status: String) {
        self.header.set(1, status);
        assert(texts(self.header@) =~= texts(old(self).header@).update(1, status@));
    }

    fn take_input<C: CursorC>(&mut self, event: KeyEvent, cursor_controller: &mut C) {
        self.change_status("Not Saved".to_owned());
        proof {
            reveal_strlit("Not Saved");
        }
        match (event.code, event.modifiers) {
            (KeyCode::Enter, KeyModifiers::Plain) => self.add_line(cursor_controller),
            (KeyCode::Backspace, KeyModifiers::Plain) => self.backspace(cursor_controller),
            (KeyCode::Delete, KeyModifiers::Plain) => self.delete(cursor_controller),
            (KeyCode::Char(c), _) => {
                if c == 'å' || c == 'æ' || c == 'ø' {
                } else {
                    self.typing(c, cursor_controller)
                }
            },
            _ => {},
        }
    }
}


/// Typing a character and then pressing Backspace gives back the lines and the cursor
/// (for a cursor without a left margin, standing at a character boundary).
pub proof fn law_type_then_backspace(ls: Seq<Seq<char>>, c: CursorView, ch: char, held: KeyModifiers)
    requires
        on_text(ls, c),
        c.left == 0,
        !is_ignored_letter(ch),
    ensures
        ({
            let typed = KeyEvent { code: KeyCode::Char(ch), modifiers: held };
            let back = KeyEvent { code: KeyCode::Backspace, modifiers: KeyModifiers::Plain };
            let (ls1, c1) = note_edited(ls, typed, c);
            note_edited(ls1, back, c1) == (ls, c)
        }),
{
    let (ls1, c1) = type_char(ls, c, ch);
    let line = ls[c.row()];
    law_remove_after_insert(line, c.col(), ch);
    assert(ls1[c1.row()] == insert_at(line, c.col(), ch));
    assert(ls1.update(c.row(), line) =~= ls);
}

/// Pressing Enter and then Backspace gives back the lines and the cursor (for a cursor
/// without a left margin, standing at a character boundary).
pub proof fn law_enter_then_backspace(ls: Seq<Seq<char>>, c: CursorView)
    requires
        on_text(ls, c),
        c.left == 0,
    ensures
        ({
            let enter = KeyEvent { code: KeyCode::Enter, modifiers: KeyModifiers::Plain };
            let back = KeyEvent { code: KeyCode::Backspace, modifiers: KeyModifiers::Plain };
            let (ls1, c1) = note_edited(ls, enter, c);
            note_edited(ls1, back, c1) == (ls, c)
        }),
{
    let (ls1, c1) = split_line(ls, c);
    let line = ls[c.row()];
    lemma_cut(line, c.col());
    assert(ls1[c.row()] == before(line, c.col()));
    assert(ls1[c.row() + 1] == after(line, c.col()));
    assert(width(before(line, c.col())) == c.col());
    assert(ls1.update(c.row(), line).remove(c.row() + 1) =~= ls);
}

/// Every edit the note takes leaves a cursor without a left margin inside the text: on a
/// line, at most at its end.
pub proof fn law_edit_stays_within(ls: Seq<Seq<char>>, event: KeyEvent, c: CursorView)
    requires
        within(ls, c),
        c.left == 0,
        note_accepts(ls, event, c),
    ensures
        within(note_edited(ls, event, c).0, note_edited(ls, event, c).1),
{
    let (ls1, c1) = note_edited(ls, event, c);
    match (event.code, event.modifiers) {
        (KeyCode::Enter, KeyModifiers::Plain) => {
            assert(ls1[c1.row()] == after(ls[c.row()], c.col()));
        },
        (KeyCode::Backspace, KeyModifiers::Plain) => {
            if c.col() != 0 {
                let line = ls[c.row()];
                lemma_remove_at(line, c.col() - 1);
                lemma_cut(line, c.col() - 1);
                lemma_utf8_concat(before(line, c.col() - 1), after(line, c.col() - 1).drop_first());
                assert(ls1[c1.row()] == remove_at(line, c.col() - 1));
            } else if c.row() != 0 {
                lemma_utf8_concat(ls[c.row() - 1], ls[c.row()]);
                assert(ls1[c1.row()] == ls[c.row() - 1] + ls[c.row()]);
            }
        },
        (KeyCode::Delete, KeyModifiers::Plain) => {
            let line = ls[c.row()];
            if c.col() != width(line) {
                lemma_remove_at(line, c.col());
                lemma_cut(line, c.col());
                lemma_utf8_concat(before(line, c.col()), after(line, c.col()).drop_first());
                assert(ls1[c.row()] == remove_at(line, c.col()));
            } else if c.row() != ls.len() - 1 {
                lemma_utf8_concat(ls[c.row()], ls[c.row() + 1]);
                assert(ls1[c.row()] == ls[c.row()] + ls[c.row() + 1]);
            }
        },
        (KeyCode::Char(ch), _) => {
            if !is_ignored_letter(ch) {
                let line = ls[c.row()];
                lemma_insert_at(line, c.col(), ch);
                lemma_cut(line, c.col());
                lemma_utf8_concat(before(line, c.col()), seq![ch]);
                lemma_utf8_concat(before(line, c.col()) + seq![ch], after(line, c.col()));
                lemma_utf8_pop_first(seq![ch]);
                assert(ls1[c.row()] == insert_at(line, c.col(), ch));
            }
        },
        _ => {},
    }
}


/// The bytes of the lines after the first, each preceded by a newline byte.
#[verifier::opaque]
pub open spec fn joined(ls: Seq<Seq<char>>) -> Seq<u8>
    decreases ls.len(),
{
    if ls.len() == 0 {
        Seq::<u8>::empty()
    } else {
        seq![10u8] + utf8(ls[0]) + joined(ls.drop_first())
    }
}

/// The bytes of the whole note: its lines joined by newlines.
#[verifier::opaque]
pub open spec fn flat(ls: Seq<Seq<char>>) -> Seq<u8> {
    if ls.len() == 0 {
        Seq::<u8>::empty()
    } else {
        utf8(ls[0]) + joined(ls.drop_first())
    }
}

/// The bytes of the note that come before line `r`, with the newline that ends them.
pub open spec fn lines_before(ls: Seq<Seq<char>>, r: int) -> Seq<u8> {
    if r == 0 {
        Seq::<u8>::empty()
    } else {
        flat(ls.take(r)) + seq![10u8]
    }
}

/// Where a cursor at byte `col` of line `row` stands in the whole note.
pub open spec fn offset(ls: Seq<Seq<char>>, row: int, col: int) -> int {
    lines_before(ls, row).len() + col
}

proof fn lemma_joined_concat(a: Seq<Seq<char>>, b: Seq<Seq<char>>)
    ensures
        joined(a + b) == joined(a) + joined(b),
    decreases a.len(),
{
    reveal(joined);
    if a.len() == 0 {
        assert(a + b =~= b);
        assert(joined(a) + joined(b) =~= joined(b));
    } else {
        lemma_joined_concat(a.drop_first(), b);
        assert((a + b).drop_first() =~= a.drop_first() + b);
        assert((a + b)[0] == a[0]);
        assert(joined(a + b) =~= joined(a) + joined(b));
    }
}

/// The note's bytes around line `r`: what comes before it, its bytes, what comes after it.
proof fn lemma_flat_at(ls: Seq<Seq<char>>, r: int)
    requires
        0 <= r < ls.len(),
    ensures
        flat(ls) == lines_before(ls, r) + utf8(ls[r]) + joined(ls.skip(r + 1)),
{
    reveal(flat);
    reveal(joined);
    let rest = seq![ls[r]] + ls.skip(r + 1);
    assert(rest.drop_first() =~= ls.skip(r + 1));
    assert(rest[0] == ls[r]);
    if r == 0 {
        assert(ls.drop_first() =~= ls.skip(1));
        assert(flat(ls) =~= lines_before(ls, r) + utf8(ls[r]) + joined(ls.skip(r + 1)));
    } else {
        let front = ls.take(r);
        assert(ls =~= front + rest);
        assert((front + rest)[0] == front[0]);
        assert((front + rest).drop_first() =~= front.drop_first() + rest);
        lemma_joined_concat(front.drop_first(), rest);
        assert(flat(ls) =~= lines_before(ls, r) + utf8(ls[r]) + joined(ls.skip(r + 1)));
    }
}

/// Dropping the first character of bytes that begin with a whole character leaves what
/// follows them untouched.
proof fn lemma_pop_prefix(x: Seq<u8>, y: Seq<u8>)
    requires
        x.len() > 0,
        length_of_first_scalar(x) <= x.len(),
    ensures
        pop_first_scalar(x + y) == pop_first_scalar(x) + y,
{
    assert((x + y)[0] == x[0]);
    assert(pop_first_scalar(x + y) =~= pop_first_scalar(x) + y);
}

/// The bytes of a text with the character at a boundary taken out.
proof fn lemma_remove_at_bytes(s: Seq<char>, k: int)
    requires
        boundary(s, k),
        k < width(s),
    ensures
        utf8(remove_at(s, k)) == utf8(s).take(k) + pop_first_scalar(utf8(s).skip(k)),
        utf8(s).skip(k).len() > 0,
        length_of_first_scalar(utf8(s).skip(k)) <= utf8(s).skip(k).len(),
{
    lemma_remove_at(s, k);
    lemma_cut(s, k);
    let z = after(s, k);
    lemma_utf8_pop_first(z);
    lemma_utf8_concat(before(s, k), z.drop_first());
    encode_utf8_first_scalar(z);
}

proof fn lemma_backspace_inside_line(ls: Seq<Seq<char>>, c: CursorView)
    requires
        c.left == 0,
        c.row() < ls.len(),
        c.col() != 0,
        note_accepts(ls, KeyEvent { code: KeyCode::Backspace, modifiers: KeyModifiers::Plain }, c),
    ensures
        ({
            let p = offset(ls, c.row(), c.col());
            let (ls1, c1) = erase_back(ls, c);
            &&& flat(ls1) == flat(ls).take(p - 1) + pop_first_scalar(flat(ls).skip(p - 1))
            &&& offset(ls1, c1.row(), c1.col()) == p - 1
        }),
{
    let r = c.row();
    let p = offset(ls, r, c.col());
    let (ls1, c1) = erase_back(ls, c);
    let k = c.col() - 1;
    let line = ls[r];
    lemma_flat_at(ls, r);
    lemma_remove_at_bytes(line, k);
    lemma_flat_at(ls1, r);
    assert(ls1.take(r) =~= ls.take(r));
    assert(ls1.skip(r + 1) =~= ls.skip(r + 1));
    let pre = lines_before(ls, r);
    let post = joined(ls.skip(r + 1));
    let b = utf8(line);
    assert(b.take(k) + b.skip(k) =~= b);
    assert(flat(ls) =~= pre + b.take(k) + (b.skip(k) + post));
    assert(flat(ls).take(p - 1) =~= pre + b.take(k));
    assert(flat(ls).skip(p - 1) =~= b.skip(k) + post);
    lemma_pop_prefix(b.skip(k), post);
    assert(flat(ls1) =~= flat(ls).take(p - 1) + pop_first_scalar(flat(ls).skip(p - 1)));
}

/// The bytes before line `r` are those before line `r - 1`, that line, and a newline.
proof fn lemma_lines_before_step(ls: Seq<Seq<char>>, r: int)
    requires
        1 <= r <= ls.len(),
    ensures
        lines_before(ls, r) == lines_before(ls, r - 1) + utf8(ls[r - 1]) + seq![10u8],
{
    let front = ls.take(r);
    lemma_flat_at(front, r - 1);
    assert(front.take(r - 1) =~= ls.take(r - 1));
    assert(front.skip(r) =~= Seq::<Seq<char>>::empty());
    assert(joined(Seq::<Seq<char>>::empty()) =~= Seq::<u8>::empty()) by {
        reveal(joined);
    }
    assert(front[r - 1] == ls[r - 1]);
    assert(flat(front) =~= lines_before(ls, r - 1) + utf8(ls[r - 1]));
}

/// The note's bytes after lines `r - 1` and `r` are joined.
proof fn lemma_joined_lines_flat(ls: Seq<Seq<char>>, r: int)
    requires
        1 <= r < ls.len(),
    ensures
        ({
            let ls1 = ls.update(r - 1, ls[r - 1] + ls[r]).remove(r);
            flat(ls1) == lines_before(ls, r - 1) + utf8(ls[r - 1]) + utf8(ls[r]) + joined(ls.skip(r + 1))
        }),
{
    let ls1 = ls.update(r - 1, ls[r - 1] + ls[r]).remove(r);
    lemma_flat_at(ls1, r - 1);
    assert(ls1.take(r - 1) =~= ls.take(r - 1));
    assert(ls1.skip(r) =~= ls.skip(r + 1));
    assert(ls1[r - 1] == ls[r - 1] + ls[r]);
    lemma_utf8_concat(ls[r - 1], ls[r]);
    assert(lines_before(ls1, r - 1) == lines_before(ls, r - 1));
}

proof fn lemma_backspace_joins(ls: Seq<Seq<char>>, c: CursorView)
    requires
        c.left == 0,
        c.row() < ls.len(),
        c.col() == 0,
        c.row() > 0,
    ensures
        ({
            let p = offset(ls, c.row(), c.col());
            let (ls1, c1) = erase_back(ls, c);
            &&& flat(ls1) == flat(ls).take(p - 1) + pop_first_scalar(flat(ls).skip(p - 1))
            &&& offset(ls1, c1.row(), c1.col()) == p - 1
        }),
{
    let r = c.row();
    let p = offset(ls, r, c.col());
    let ls1 = ls.update(r - 1, ls[r - 1] + ls[r]).remove(r);
    let pre = lines_before(ls, r - 1);
    let ua = utf8(ls[r - 1]);
    let ub = utf8(ls[r]);
    let post = joined(ls.skip(r + 1));
    lemma_flat_at(ls, r);
    lemma_lines_before_step(ls, r);
    lemma_joined_lines_flat(ls, r);
    let tail = seq![10u8] + ub + post;
    assert(flat(ls) =~= (pre + ua) + tail);
    assert(p - 1 == (pre + ua).len());
    assert(flat(ls).take(p - 1) =~= pre + ua);
    assert(flat(ls).skip(p - 1) =~= tail);
    assert(tail[0] == 10u8);
    assert(pop_first_scalar(tail) =~= ub + post);
    assert(flat(ls1) =~= (pre + ua) + (ub + post));
    assert(lines_before(ls1, r - 1) == pre) by {
        assert(ls1.take(r - 1) =~= ls.take(r - 1));
    }
}

/// Backspace takes out of the note's bytes exactly the character that starts one byte
/// before the cursor (the newline before the line when the cursor is at its start), and the
/// cursor moves back one byte in the note; at the very start of the note nothing changes.
pub proof fn law_backspace_in_flat_text(ls: Seq<Seq<char>>, c: CursorView)
    requires
        c.left == 0,
        c.row() < ls.len(),
        note_accepts(ls, KeyEvent { code: KeyCode::Backspace, modifiers: KeyModifiers::Plain }, c),
    ensures
        ({
            let p = offset(ls, c.row(), c.col());
            let (ls1, c1) = erase_back(ls, c);
            if p > 0 {
                &&& flat(ls1) == flat(ls).take(p - 1) + pop_first_scalar(flat(ls).skip(p - 1))
                &&& offset(ls1, c1.row(), c1.col()) == p - 1
            } else {
                &&& ls1 == ls
                &&& c1 == c
            }
        }),
{
    if c.col() != 0 {
        lemma_backspace_inside_line(ls, c);
    } else if c.row() != 0 {
        lemma_backspace_joins(ls, c);
    }
}


proof fn lemma_delete_inside_line(ls: Seq<Seq<char>>, c: CursorView)
    requires
        on_text(ls, c),
        c.col() != width(ls[c.row()]),
    ensures
        ({
            let p = offset(ls, c.row(), c.col());
            let ls1 = erase_forward(ls, c);
            &&& flat(ls1) == flat(ls).take(p) + pop_first_scalar(flat(ls).skip(p))
            &&& offset(ls1, c.row(), c.col()) == p
        }),
{
    let r = c.row();
    let k = c.col();
    let p = offset(ls, r, k);
    let ls1 = erase_forward(ls, c);
    let line = ls[r];
    lemma_flat_at(ls, r);
    lemma_remove_at_bytes(line, k);
    lemma_flat_at(ls1, r);
    assert(ls1.take(r) =~= ls.take(r));
    assert(ls1.skip(r + 1) =~= ls.skip(r + 1));
    let pre = lines_before(ls, r);
    let post = joined(ls.skip(r + 1));
    let b = utf8(line);
    assert(b.take(k) + b.skip(k) =~= b);
    assert(flat(ls) =~= pre + b.take(k) + (b.skip(k) + post));
    assert(flat(ls).take(p) =~= pre + b.take(k));
    assert(flat(ls).skip(p) =~= b.skip(k) + post);
    lemma_pop_prefix(b.skip(k), post);
    assert(flat(ls1) =~= flat(ls).take(p) + pop_first_scalar(flat(ls).skip(p)));
}

proof fn lemma_delete_joins(ls: Seq<Seq<char>>, c: CursorView)
    requires
        on_text(ls, c),
        c.col() == width(ls[c.row()]),
        c.row() != ls.len() - 1,
    ensures
        ({
            let p = offset(ls, c.row(), c.col());
            let ls1 = erase_forward(ls, c);
            &&& flat(ls1) == flat(ls).take(p) + pop_first_scalar(flat(ls).skip(p))
            &&& offset(ls1, c.row(), c.col()) == p
        }),
{
    let r = c.row();
    let p = offset(ls, r, c.col());
    let ls1 = ls.update(r, ls[r] + ls[r + 1]).remove(r + 1);
    let pre = lines_before(ls, r);
    let ua = utf8(ls[r]);
    let ub = utf8(ls[r + 1]);
    let post = joined(ls.skip(r + 2));
    lemma_flat_at(ls, r + 1);
    lemma_lines_before_step(ls, r + 1);
    lemma_joined_lines_flat(ls, r + 1);
    assert(ls.update(r, ls[r] + ls[r + 1]).remove(r + 1) == erase_forward(ls, c));
    let tail = seq![10u8] + ub + post;
    assert(flat(ls) =~= (pre + ua) + tail);
    assert(flat(ls).take(p) =~= pre + ua);
    assert(flat(ls).skip(p) =~= tail);
    assert(tail[0] == 10u8);
    assert(pop_first_scalar(tail) =~= ub + post);
    assert(flat(ls1) =~= (pre + ua) + (ub + post));
    assert(lines_before(ls1, r) == pre) by {
        assert(ls1.take(r) =~= ls.take(r));
    }
}

/// Delete takes out of the note's bytes exactly the character that starts at the cursor
/// (the newline after the line when the cursor is at its end), and the cursor keeps its
/// place in the note; at the very end of the note nothing changes.
pub proof fn law_delete_in_flat_text(ls: Seq<Seq<char>>, c: CursorView)
    requires
        note_accepts(ls, KeyEvent { code: KeyCode::Delete, modifiers: KeyModifiers::Plain }, c),
    ensures
        ({
            let p = offset(ls, c.row(), c.col());
            let ls1 = erase_forward(ls, c);
            if c.col() != width(ls[c.row()]) || c.row() != ls.len() - 1 {
                &&& flat(ls1) == flat(ls).take(p) + pop_first_scalar(flat(ls).skip(p))
                &&& offset(ls1, c.row(), c.col()) == p
            } else {
                &&& ls1 == ls
                &&& p == flat(ls).len()
            }
        }),
{
    if c.col() != width(ls[c.row()]) {
        lemma_delete_inside_line(ls, c);
    } else if c.row() != ls.len() - 1 {
        lemma_delete_joins(ls, c);
    } else {
        lemma_flat_at(ls, c.row());
        assert(ls.skip(c.row() + 1) =~= Seq::<Seq<char>>::empty());
        assert(joined(Seq::<Seq<char>>::empty()) =~= Seq::<u8>::empty()) by {
            reveal(joined);
        }
    }
}


/// Typing into the note: every character but å, æ and ø goes in at the cursor's byte offset
/// (its bytes between the line's bytes before and after the cursor), the cursor moves one
/// byte on, and no other line changes; å, æ and ø leave the lines and the cursor as they
/// are. Either way the status becomes "Not Saved" and the title stays.
pub proof fn law_typing(lc: LinesController, c: CursorView, ch: char, held: KeyModifiers)
    requires
        0 <= c.row() < lc.lines@.len(),
    ensures
        ({
            let ls = texts(lc.lines@);
            let (v, c1) = lc.edited(KeyEvent { code: KeyCode::Char(ch), modifiers: held }, c);
            &&& v.header == texts(lc.header@).update(1, "Not Saved"@)
            &&& v.shown == v.stored
            &&& if ch == 'å' || ch == 'æ' || ch == 'ø' {
                &&& v.stored == ls
                &&& c1 == c
            } else {
                &&& v.stored.len() == ls.len()
                &&& (forall|i: int| 0 <= i < ls.len() && i != c.row() ==> v.stored[i] == ls[i])
                &&& v.stored[c.row()] == insert_at(ls[c.row()], c.col(), ch)
                &&& boundary(ls[c.row()], c.col()) ==> utf8(v.stored[c.row()]) == utf8(ls[c.row()]).take(c.col())
                    + utf8(seq![ch]) + utf8(ls[c.row()]).skip(c.col())
                &&& c1 == (CursorView { x: c.col() + 1, ..c })
            }
        }),
{
    let ls = texts(lc.lines@);
    let line = ls[c.row()];
    if boundary(line, c.col()) {
        lemma_insert_at(line, c.col(), ch);
        lemma_cut(line, c.col());
        lemma_utf8_concat(before(line, c.col()), seq![ch]);
        lemma_utf8_concat(before(line, c.col()) + seq![ch], after(line, c.col()));
    }
}

/// Enter in the note: the line under the cursor is cut at the cursor's byte offset into the
/// bytes before it and the bytes from it on, which become two lines in its place; the lines
/// above stay, the lines below move one down, and the cursor goes to the start of the new
/// line. The status becomes "Not Saved".
pub proof fn law_enter(lc: LinesController, c: CursorView)
    requires
        on_text(texts(lc.lines@), c),
    ensures
        ({
            let ls = texts(lc.lines@);
            let r = c.row();
            let (v, c1) = lc.edited(KeyEvent { code: KeyCode::Enter, modifiers: KeyModifiers::Plain }, c);
            &&& v.header == texts(lc.header@).update(1, "Not Saved"@)
            &&& v.shown == v.stored
            &&& v.stored.len() == ls.len() + 1
            &&& (forall|i: int| 0 <= i < r ==> v.stored[i] == ls[i])
            &&& utf8(v.stored[r]) == utf8(ls[r]).take(c.col())
            &&& utf8(v.stored[r + 1]) == utf8(ls[r]).skip(c.col())
            &&& v.stored[r] + v.stored[r + 1] == ls[r]
            &&& (forall|i: int| r + 1 < i < ls.len() + 1 ==> v.stored[i] == ls[i - 1])
            &&& c1 == (CursorView { x: 0, y: c.y + 1, ..c })
        }),
{
    let ls = texts(lc.lines@);
    lemma_cut(ls[c.row()], c.col());
}

/// Backspace in the note, over its bytes joined by newlines: exactly the character that
/// starts one byte before the cursor goes (the newline before the line when the cursor is at
/// its start), and the cursor moves back one byte in the note; at the very start of the note
/// nothing changes. The status becomes "Not Saved".
pub proof fn law_backspace(lc: LinesController, c: CursorView)
    requires
        c.left == 0,
        c.row() < lc.lines@.len(),
        lc.accepts(KeyEvent { code: KeyCode::Backspace, modifiers: KeyModifiers::Plain }, c),
    ensures
        ({
            let ls = texts(lc.lines@);
            let p = offset(ls, c.row(), c.col());
            let (v, c1) = lc.edited(KeyEvent { code: KeyCode::Backspace, modifiers: KeyModifiers::Plain }, c);
            &&& v.header == texts(lc.header@).update(1, "Not Saved"@)
            &&& v.shown == v.stored
            &&& if p > 0 {
                &&& flat(v.stored) == flat(ls).take(p - 1) + pop_first_scalar(flat(ls).skip(p - 1))
                &&& offset(v.stored, c1.row(), c1.col()) == p - 1
            } else {
                &&& v.stored == ls
                &&& c1 == c
            }
        }),
{
    law_backspace_in_flat_text(texts(lc.lines@), c);
}

/// Delete in the note, over its bytes joined by newlines: exactly the character that starts
/// at the cursor goes (the newline after the line when the cursor is at its end) and the
/// cursor keeps its place; at the very end of the note nothing changes. The status becomes
/// "Not Saved".
pub proof fn law_delete(lc: LinesController, c: CursorView)
    requires
        lc.accepts(KeyEvent { code: KeyCode::Delete, modifiers: KeyModifiers::Plain }, c),
    ensures
        ({
            let ls = texts(lc.lines@);
            let p = offset(ls, c.row(), c.col());
            let (v, c1) = lc.edited(KeyEvent { code: KeyCode::Delete, modifiers: KeyModifiers::Plain }, c);
            &&& v.header == texts(lc.header@).update(1, "Not Saved"@)
            &&& v.shown == v.stored
            &&& c1 == c
            &&& if c.col() != width(ls[c.row()]) || c.row() != ls.len() - 1 {
                &&& flat(v.stored) == flat(ls).take(p) + pop_first_scalar(flat(ls).skip(p))
                &&& offset(v.stored, c.row(), c.col()) == p
            } else {
                &&& v.stored == ls
                &&& p == flat(ls).len()
            }
        }),
{
    law_delete_in_flat_text(texts(lc.lines@), c);
}

} // verus!
