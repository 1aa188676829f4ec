use vstd::prelude::*;

use crate::keys::{KeyCode, KeyEvent, KeyModifiers};
use crate::text::{
    at_boundary, boundary, byte_len, char_len, contains, has_infix, insert_at, insert_char, remove_at,
    remove_char, texts, width,
};
use crate::traits::{CursorC, CursorView, LineC, LinesView};

verus! {

/// The list of notes. Its first header line is a search text: only the titles that hold it
/// are shown (all of them while it is empty).
pub struct BaseLineController {
    pub header: Vec<String>,
    pub lines: Vec<String>,
    pub line_cop: Vec<String>,
}

impl View for BaseLineController {
    type V = LinesView;

    open spec fn view(&self) -> LinesView {
        LinesView {
            header: texts(self.header@),
            stored: texts(self.lines@),
            shown: texts(self.line_cop@),
        }
    }
}

/// The test that a line holds the search text `pat`.
pub open spec fn holding(pat: Seq<char>) -> spec_fn(Seq<char>) -> bool {
    |l: Seq<char>| has_infix(l, pat)
}

/// The lines that hold the search text `pat`, in their order; all lines when `pat` is empty.
pub open spec fn matching(lines: Seq<Seq<char>>, pat: Seq<char>) -> Seq<Seq<char>> {
    if pat.len() != 0 {
        lines.filter(holding(pat))
    } else {
        lines
    }
}

/// The header, the stored lines and the cursor after a key, before the shown lines are
/// brought up to date: Enter copies the line at the cursor's row to the end of the list;
/// Backspace and characters edit the search text at the cursor's byte offset.
pub open spec fn list_keyed(v: LinesView, event: KeyEvent, c: CursorView) -> (Seq<Seq<char>>, Seq<Seq<char>>, CursorView) {
    match (event.code, event.modifiers) {
        (KeyCode::Enter, KeyModifiers::Plain) => (v.header, v.stored.push(v.stored[c.row()]), c),
        (KeyCode::Backspace, KeyModifiers::Plain) => if c.col() != 0 {
            (v.header.update(0, remove_at(v.header[0], c.col() - 1)), v.stored, CursorView { x: c.col() - 1, ..c })
        } else {
            (v.header, v.stored, c)
        },
        (KeyCode::Char(ch), _) => (
            v.header.update(0, insert_at(v.header[0], c.col(), ch)),
            v.stored,
            CursorView { x: c.col() + 1, ..c },
        ),
        _ => (v.header, v.stored, c),
    }
}

/// The cursor after the shown lines are brought up to date: with a search text, a cursor
/// stored below the `n` shown lines (and `n > 0`) is put at stored row `n`.
pub open spec fn refitted(c: CursorView, pat: Seq<char>, n: int) -> CursorView {
    if pat.len() != 0 && c.y > n && n > 0 {
        CursorView { y: n, ..c }
    } else {
        c
    }
}

/// The whole effect of a key on the list and its cursor.
pub open spec fn list_edited(v: LinesView, event: KeyEvent, c: CursorView) -> (LinesView, CursorView) {
    let (h, s, c2) = list_keyed(v, event, c);
    let shown = matching(s, h[0]);
    (LinesView { header: h, stored: s, shown }, refitted(c2, h[0], shown.len() as int))
}

/// The keys the list can take with the cursor at `c` without reading outside its lines.
pub open spec fn list_accepts(v: LinesView, event: KeyEvent, c: CursorView) -> bool {
    let (h, s, c2) = list_keyed(v, event, c);
    &&& v.header.len() >= 1
    &&& h[0].len() != 0 ==> c.top <= c.y
    &&& match (event.code, event.modifiers) {
        (KeyCode::Enter, KeyModifiers::Plain) => c.y >= c.top && c.row() < v.stored.len(),
        (KeyCode::Backspace, KeyModifiers::Plain) => c.x >= c.left && (c.col() != 0 ==> (c.col() - 1
            < width(v.header[0]) && boundary(v.header[0], c.col() - 1))),
        (KeyCode::Char(ch), _) => c.x >= c.left && boundary(v.header[0], c.col()) && c.col() + 1
            <= usize::MAX,
        _ => true,
    }
}

impl BaseLineController {
    pub fn new(lines: Vec<String>, header: Vec<String>) -> (b: BaseLineController)
        ensures
            b@ == (LinesView { header: texts(header@), stored: texts(lines@), shown: texts(lines@) }),
    {
        let copy = lines.clone();
        assert(texts(copy@) =~= texts(lines@)) by {
            assert forall|i: int| 0 <= i < lines@.len() implies copy@[i] == lines@[i] by {
                assert(cloned::<String>(lines[i], copy[i]));
            }
        }
        BaseLineController { header, lines: copy, line_cop: lines }
    }

    /// The lines holding the search text `pat`.
    fn filtered(lines: &Vec<String>, pat: &String) -> (out: Vec<String>)
        ensures
            texts(out@) == texts(lines@).filter(holding(pat@)),
    {
        let mut out: Vec<String> = Vec::new();
        let mut i: usize = 0;
        assert(texts(lines@).take(0) =~= Seq::<Seq<char>>::empty());
        assert(texts(out@) =~= texts(lines@).take(0).filter(holding(pat@))) by {
            reveal_with_fuel(Seq::filter, 1);
        }
        while i < lines.len()
            invariant
                i <= lines.len(),
                texts(out@) == texts(lines@).take(i as int).filter(holding(pat@)),
            decreases lines.len() - i,
        {
            let ghost before = texts(out@);
            let ghost prefix = texts(lines@).take(i + 1);
            assert(prefix.drop_last() =~= texts(lines@).take(i as int));
            assert(prefix.last() == lines@[i as int]@);
            assert(prefix.filter(holding(pat@)) == (if holding(pat@)(prefix.last()) {
                prefix.drop_last().filter(holding(pat@)).push(prefix.last())
            } else {
                prefix.drop_last().filter(holding(pat@))
            })) by {
                reveal_with_fuel(Seq::filter, 1);
            }
            let found = contains(&lines[i], pat);
            assert(holding(pat@)(prefix.last()) == has_infix(prefix.last(), pat@));
            assert(found == holding(pat@)(prefix.last()));
            if found {
                out.push(lines[i].clone());
                assert(texts(out@) =~= before.push(lines@[i as int]@));
            }
            i = i + 1;
        }
        assert(texts(lines@).take(i as int) =~= texts(lines@));
        out
    }

    fn update_line<C: CursorC>(&mut self, cursor_controller: &mut C)
        requires
            old(self).header@.len() >= 1,
            old(self).header@[0]@.len() != 0 ==> old(cursor_controller).position().top
                <= old(cursor_controller).position().y,
        ensures
            final(self).header@ == old(self).header@,
            final(self).lines@ == old(self).lines@,
            texts(final(self).line_cop@) == matching(texts(old(self).lines@), old(self).header@[0]@),
            final(cursor_controller).position() == refitted(
                old(cursor_controller).position(),
                old(self).header@[0]@,
                matching(texts(old(self).lines@), old(self).header@[0]@).len() as int,
            ),
    {
        proof {
            cursor_controller.position_fits();
        }
        if char_len(&self.header[0]) != 0 {
            self.line_cop = Self::filtered(&self.lines, &self.header[0]);
            if (cursor_controller.get_y() + cursor_controller.get_min_height()) > self.line_cop.len()
                && self.line_cop.len() > 0 {
                cursor_controller.change_y(self.line_cop.len());
            }
        } else {
            let copy = self.lines.clone();
            assert(texts(copy@) =~= texts(self.lines@)) by {
                assert forall|i: int| 0 <= i < self.lines@.len() implies copy@[i] == self.lines@[i] by {
                    assert(cloned::<String>(self.lines[i], copy[i]));
                }
            }
            self.line_cop = copy;
        }
    }

    fn typing<C: CursorC>(&mut self, char: char, cursor_controller: &mut C)
        requires
            old(self).header@.len() >= 1,
            old(cursor_controller).position().x >= old(cursor_controller).position().left,
            boundary(old(self).header@[0]@, old(cursor_controller).position().col()),
            old(cursor_controller).position().col() + 1 <= usize::MAX,
        ensures
            texts(final(self).header@) == texts(old(self).header@).update(
                0,
                insert_at(old(self).header@[0]@, old(cursor_controller).position().col(), char),
            ),
            final(self).header@.len() == old(self).header@.len(),
            final(self).lines@ == old(self).lines@,
            final(self).line_cop@ == old(self).line_cop@,
            final(cursor_controller).position() == (CursorView {
                x: old(cursor_controller).position().col() + 1,
                ..old(cursor_controller).position()
            }),
    {
        let x = cursor_controller.get_x();
        let title = insert_char(&self.header[0], x, char);
        self.header.set(0, title);
        assert(texts(self.header@) =~= texts(old(self).header@).update(0, insert_at(old(self).header@[0]@, x as int, char)));
        cursor_controller.change_x(x + 1);
    }

    fn backspace<C: CursorC>(&mut self, cursor_controller: &mut C)
        requires
            old(self).header@.len() >= 1,
            old(cursor_controller).position().x >= old(cursor_controller).position().left,
            old(cursor_controller).position().col() != 0 ==> (old(cursor_controller).position().col() - 1
                < width(old(self).header@[0]@) && boundary(
                old(self).header@[0]@,
                old(cursor_controller).position().col() - 1,
            )),
        ensures
            ({
                let c = old(cursor_controller).position();
                if c.col() != 0 {
                    &&& texts(final(self).header@) == texts(old(self).header@).update(
                        0,
                        remove_at(old(self).header@[0]@, c.col() - 1),
                    )
                    &&& final(cursor_controller).position() == (CursorView { x: c.col() - 1, ..c })
                } else {
                    &&& final(self).header@ == old(self).header@
                    &&& final(cursor_controller).position() == c
                }
            }),
            final(self).header@.len() == old(self).header@.len(),
            final(self).lines@ == old(self).lines@,
            final(self).line_cop@ == old(self).line_cop@,
    {
        if cursor_controller.get_x() != 0 {
            let x = cursor_controller.get_x();
            let title = remove_char(&self.header[0], x - 1);
            self.header.set(0, title);
            assert(texts(self.header@) =~= texts(old(self).header@).update(0, remove_at(old(self).header@[0]@, x - 1)));
            cursor_controller.change_x(x - 1);
        }
    }
}

impl LineC for BaseLineController {
    open spec fn text(&self) -> LinesView {
        self@
    }

    open spec fn with_lines(&self, lines: Seq<Seq<char>>) -> LinesView {
        LinesView { stored: lines, ..self@ }
    }

    open spec fn accepts(&self, event: KeyEvent, cursor: CursorView) -> bool {
        list_accepts(self@, event, cursor)
    }

    open spec fn edited(&self, event: KeyEvent, cursor: CursorView) -> (LinesView, CursorView) {
        list_edited(self@, event, cursor)
    }

    fn can_take<C: CursorC>(&self, event: KeyEvent, cursor_controller: &C) -> (b: bool) {
        proof {
            cursor_controller.position_fits();
        }
        if self.header.len() < 1 {
            return false;
        }
        let typed = match (event.code, event.modifiers) {
            (KeyCode::Enter, KeyModifiers::Plain) => cursor_controller.y_in_margin()
                && cursor_controller.get_y() < self.lines.len(),
            (KeyCode::Backspace, KeyModifiers::Plain) => cursor_controller.x_in_margin() && (
            cursor_controller.get_x() == 0 || (cursor_controller.get_x() - 1 < byte_len(
                &self.header[0],
            ) && at_boundary(&self.header[0], cursor_controller.get_x() - 1))),
            (KeyCode::Char(_), _) => cursor_controller.x_in_margin() && at_boundary(
                &self.header[0],
                cursor_controller.get_x(),
            ) && cursor_controller.get_x() < usize::MAX,
            _ => true,
        };
        if !typed {
            return false;
        }
        proof {
            let h = texts(self.header@);
            let c = cursor_controller.position();
            if event.code == KeyCode::Backspace && event.modifiers == KeyModifiers::Plain && c.col() != 0 {
                crate::text::lemma_remove_at(h[0], c.col() - 1);
            }
            if event.code is Char {
                crate::text::lemma_insert_at(h[0], c.col(), event.code->0);
            }
        }
        let search_len = match (event.code, event.modifiers) {
            (KeyCode::Backspace, KeyModifiers::Plain) => {
                let n = char_len(&self.header[0]);
                if cursor_controller.get_x() != 0 {
                    n - 1
                } else {
                    n
                }
            },
            (KeyCode::Char(_), _) => 1,
            _ => char_len(&self.header[0]),
        };
        search_len == 0 || cursor_controller.y_in_margin()
    }

    fn get_lines(&self) -> (lines: &Vec<String>) {
        &self.line_cop
    }

    fn get_spec(&self) -> (lines: &Vec<String>) {
        &self.lines
    }

    fn get_header(&self) -> (header: &Vec<String>) {
        &self.header
    }

    fn change_lines(&mut self, lines: Vec<String>) {
        self.lines = lines;
    }

    fn change_title(&mut self, title: String) {
        self.header.set(0, title);
        assert(texts(self.header@) =~= texts(old(self).header@).update(0, title@));
    }

    fn change_status(&mut self, status: String) {
        self.header.set(1, status);
        assert(texts(self.header@) =~= texts(old(self).header@).update(1, status@));
    }

    fn take_input<C: CursorC>(&mut self, event: KeyEvent, cursor_controller: &mut C) {
        match (event.code, event.modifiers) {
            (KeyCode::Enter, KeyModifiers::Plain) => {
                let y = cursor_controller.get_y();
                assert(y < self.lines@.len());
                let copy = self.lines[y].clone();
                self.lines.push(copy);
                assert(texts(self.lines@) =~= texts(old(self).lines@).push(texts(old(self).lines@)[y as int]));
            },
            (KeyCode::Backspace, KeyModifiers::Plain) => self.backspace(cursor_controller),
            (KeyCode::Char(s), _) => self.typing(s, cursor_controller),
            _ => {},
        }
        self.update_line(cursor_controller)
    }
}


/// With a search text, the list shows exactly the titles that hold it: every shown title
/// holds it, and every kept title that holds it is shown. Without one, every title is shown.
pub proof fn law_search_shows_matches(stored: Seq<Seq<char>>, pat: Seq<char>)
    ensures
        pat.len() == 0 ==> matching(stored, pat) == stored,
        pat.len() != 0 ==> forall|i: int|
            0 <= i < matching(stored, pat).len() ==> has_infix(#[trigger] matching(stored, pat)[i], pat),
        pat.len() != 0 ==> forall|j: int|
            0 <= j < stored.len() && has_infix(#[trigger] stored[j], pat) ==> matching(stored, pat).contains(stored[j]),
{
    if pat.len() != 0 {
        assert forall|i: int| 0 <= i < matching(stored, pat).len() implies has_infix(
            #[trigger] matching(stored, pat)[i],
            pat,
        ) by {
            stored.lemma_filter_pred(holding(pat), i);
        }
        assert forall|j: int| 0 <= j < stored.len() && has_infix(#[trigger] stored[j], pat) implies matching(
            stored,
            pat,
        ).contains(stored[j]) by {
            stored.lemma_filter_contains(holding(pat), j);
        }
    }
}

/// Bringing the shown titles up to date a second time changes nothing: the shown titles
/// depend on the kept ones and the search text alone, and a refitted cursor stays where it is.
pub proof fn law_refresh_twice(stored: Seq<Seq<char>>, pat: Seq<char>, c: CursorView)
    ensures
        ({
            let n = matching(stored, pat).len() as int;
            refitted(refitted(c, pat, n), pat, n) == refitted(c, pat, n)
        }),
{
}

/// Typing a character into the search text and then pressing Backspace gives back the
/// search text, the kept titles and the cursor (for a cursor without a left margin).
pub proof fn law_search_type_then_backspace(v: LinesView, c: CursorView, ch: char, held: KeyModifiers)
    requires
        v.header.len() >= 1,
        c.left == 0,
        c.x >= c.left,
        boundary(v.header[0], c.col()),
    ensures
        ({
            let typed = KeyEvent { code: KeyCode::Char(ch), modifiers: held };
            let back = KeyEvent { code: KeyCode::Backspace, modifiers: KeyModifiers::Plain };
            let (h1, s1, c1) = list_keyed(v, typed, c);
            let (h2, s2, c2) = list_keyed(LinesView { header: h1, stored: s1, shown: v.shown }, back, c1);
            &&& h2 == v.header
            &&& s2 == v.stored
            &&& c2 == c
        }),
{
    let line = v.header[0];
    crate::text::law_remove_after_insert(line, c.col(), ch);
    crate::text::lemma_insert_at(line, c.col(), ch);
    assert(v.header.update(0, insert_at(line, c.col(), ch)).update(0, line) =~= v.header);
}


/// After any key on the list, the shown titles are exactly the kept titles that hold the
/// search text, in their order (all kept titles while the search text is empty): they
/// depend on the kept titles and the search text after the key alone.
pub proof fn law_list_shows_search_results(b: BaseLineController, event: KeyEvent, c: CursorView)
    requires
        b.header@.len() >= 1,
    ensures
        ({
            let (v, c1) = b.edited(event, c);
            let pat = v.header[0];
            &&& pat.len() != 0 ==> v.shown == v.stored.filter(|l: Seq<char>| has_infix(l, pat))
            &&& pat.len() == 0 ==> v.shown == v.stored
        }),
{
    let (v, c1) = b.edited(event, c);
    let pat = v.header[0];
    assert(holding(pat) =~= |l: Seq<char>| has_infix(l, pat));
}

/// Two lists that keep the same titles under the same header end the same after the same
/// key, whatever titles each showed before it.
pub proof fn law_list_forgets_shown(b1: BaseLineController, b2: BaseLineController, event: KeyEvent, c: CursorView)
    requires
        b1@.header == b2@.header,
        b1@.stored == b2@.stored,
    ensures
        b1.edited(event, c) == b2.edited(event, c),
{
    assert(list_keyed(b1@, event, c) == list_keyed(b2@, event, c));
}

/// What each key does to the list's header, kept titles and cursor: a character goes into
/// the search text at the cursor's byte offset and the cursor moves one byte on; Backspace
/// away from the start takes out the character starting one byte before the cursor and moves
/// it one byte back; Enter copies the title at the cursor's row to the end; every other key
/// leaves them. The status line never changes. With a search text, a cursor stored below the
/// shown titles (when there are any) is put at the stored row that equals their number.
pub proof fn law_list_keys(b: BaseLineController, event: KeyEvent, c: CursorView)
    requires
        b.header@.len() >= 1,
    ensures
        ({
            let h = texts(b.header@);
            let s = texts(b.lines@);
            let (v, c1) = b.edited(event, c);
            &&& v.header.len() == h.len()
            &&& (forall|i: int| 1 <= i < h.len() ==> v.header[i] == h[i])
            &&& c1.left == c.left && c1.top == c.top
            &&& c1.y == (if v.header[0].len() != 0 && c.y > v.shown.len() && v.shown.len() > 0 {
                v.shown.len() as int
            } else {
                c.y
            })
            &&& (event.code is Char) ==> {
                &&& v.header[0] == insert_at(h[0], c.col(), event.code->0)
                &&& v.stored == s
                &&& c1.x == c.col() + 1
            }
            &&& (event.code == KeyCode::Backspace && event.modifiers == KeyModifiers::Plain) ==> {
                &&& v.stored == s
                &&& if c.col() != 0 {
                    &&& v.header[0] == remove_at(h[0], c.col() - 1)
                    &&& c1.x == c.col() - 1
                } else {
                    &&& v.header[0] == h[0]
                    &&& c1.x == c.x
                }
            }
            &&& (event.code == KeyCode::Enter && event.modifiers == KeyModifiers::Plain) ==> {
                &&& v.header == h
                &&& v.stored == s.push(s[c.row()])
                &&& c1.x == c.x
            }
            &&& !(event.code is Char) && !((event.code == KeyCode::Backspace || event.code
                == KeyCode::Enter) && event.modifiers == KeyModifiers::Plain) ==> {
                &&& v.header == h
                &&& v.stored == s
                &&& c1.x == c.x
            }
        }),
{
}

} // verus!
