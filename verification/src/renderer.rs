use vstd::prelude::*;
use vstd::utf8::encode_utf8;

use crate::states::States;
use crate::text::{push_char, texts};
use crate::traits::{CursorC, CursorView};

verus! {

/// The background a line is drawn on.
#[derive(Clone, Copy, Debug, PartialEq, Eq, Structural)]
pub enum Shade {
    Background,
    Highlight,
}

/// Decides what the screen shows: the header centred, the lines with the cursor's row
/// highlighted, and where the terminal cursor goes.
pub struct Renderer {}

/// Length of the text in bytes, as `str::len` gives it.
pub open spec fn byte_len(s: Seq<char>) -> usize {
    encode_utf8(s).len() as usize
}

/// The blanks put before a header line of `n` bytes on a terminal `width` columns wide.
pub open spec fn padding(width: u16, n: usize) -> int {
    width / 2 - ((n / 2) as u16)
}

/// The header line can be centred without the padding going below zero.
pub open spec fn centrable(width: u16, s: Seq<char>) -> bool {
    ((byte_len(s) / 2) as u16) <= width / 2
}

/// The line `s` preceded by `k` blanks.
pub open spec fn indented(s: Seq<char>, k: int) -> Seq<char> {
    Seq::new(k as nat, |i: int| ' ') + s
}

/// The background of each of `n` lines when the cursor is on row `row`.
pub open spec fn shades(n: nat, row: int) -> Seq<Shade> {
    Seq::new(n, |i: int| if i == row { Shade::Highlight } else { Shade::Background })
}

/// Where the terminal cursor goes: on the list it stays on the top row; in the editor it
/// goes to the cursor's stored row. Coordinates are cut to 16 bits.
pub open spec fn screen_spot(state: States, c: CursorView) -> (u16, u16) {
    (
        (c.col() as u16),
        match state {
            States::Setup => 0u16,
            States::Editor => (c.y as u16),
        },
    )
}

impl Renderer {
    pub fn new() -> (r: Renderer) {
        Renderer {  }
    }

    /// `s` after `k` blanks put in front of it one by one.
    fn indent(s: &String, k: u16) -> (r: String)
        ensures
            r@ == indented(s@, k as int),
    {
        let mut r = String::new();
        let mut i: u16 = 0;
        while i < k
            invariant
                i <= k,
                r@ == Seq::new(i as nat, |j: int| ' '),
            decreases k - i,
        {
            let mut blank = r;
            push_char(&mut blank, ' ');
            r = blank;
            assert(r@ =~= Seq::new((i + 1) as nat, |j: int| ' '));
            i = i + 1;
        }
        r.append(s.as_str());
        r
    }

    /// The blanks before a header line of `line` on a terminal `width` wide.
    fn pad_for(line: &String, width: u16) -> (k: u16)
        requires
            centrable(width, line@),
        ensures
            k == padding(width, byte_len(line@)),
    {
        let half = #[verifier::truncate] ((line.as_str().len() / 2) as u16);
        width / 2 - half
    }

    /// The header rows to draw: with two or more header lines, the title and the status,
    /// each centred; with one, the title as it is; with none, nothing.
    pub fn render_header(&self, lines: &Vec<String>, width: u16) -> (rows: Vec<String>)
        requires
            lines@.len() > 0 ==> centrable(width, lines@[0]@),
            lines@.len() > 1 ==> centrable(width, lines@[1]@),
        ensures
            lines@.len() == 0 ==> rows@.len() == 0,
            lines@.len() == 1 ==> texts(rows@) == seq![lines@[0]@],
            lines@.len() > 1 ==> texts(rows@) == seq![
                indented(lines@[0]@, padding(width, byte_len(lines@[0]@))),
                indented(lines@[1]@, padding(width, byte_len(lines@[1]@))),
            ],
    {
        let mut rows: Vec<String> = Vec::new();
        if lines.len() > 0 {
            let header = lines[0].clone();
            let header_line = Self::indent(&header, Self::pad_for(&header, width));
            if lines.len() > 1 {
                let status = &lines[1];
                let status_line = Self::indent(status, Self::pad_for(status, width));
                rows.push(header_line);
                rows.push(status_line);
                assert(texts(rows@) =~= seq![
                    indented(lines@[0]@, padding(width, byte_len(lines@[0]@))),
                    indented(lines@[1]@, padding(width, byte_len(lines@[1]@))),
                ]);
            } else {
                rows.push(header);
                assert(texts(rows@) =~= seq![lines@[0]@]);
            }
        }
        rows
    }

    /// The background of each line: highlighted on the cursor's row.
    pub fn render_lines<C: CursorC>(&self, lines: &Vec<String>, cursor_controller: &C) -> (backgrounds: Vec<Shade>)
        requires
            lines@.len() > 0 ==> cursor_controller.position().y >= cursor_controller.position().top,
        ensures
            backgrounds@ == shades(lines@.len(), cursor_controller.position().row()),
    {
        let mut backgrounds: Vec<Shade> = Vec::new();
        let mut pos: usize = 0;
        while pos < lines.len()
            invariant
                pos <= lines.len(),
                lines@.len() > 0 ==> cursor_controller.position().y >= cursor_controller.position().top,
                backgrounds@ == shades(pos as nat, cursor_controller.position().row()),
            decreases lines.len() - pos,
        {
            let colour = if pos == cursor_controller.get_y() {
                Shade::Highlight
            } else {
                Shade::Background
            };
            backgrounds.push(colour);
            assert(backgrounds@ =~= shades((pos + 1) as nat, cursor_controller.position().row()));
            pos = pos + 1;
        }
        backgrounds
    }

    /// Where the terminal cursor is put once the screen is drawn.
    pub fn cursor_position<C: CursorC>(&self, state: &States, cursor_controller: &C) -> (spot: (u16, u16))
        requires
            cursor_controller.position().x >= cursor_controller.position().left,
            *state == States::Editor ==> cursor_controller.position().y
                >= cursor_controller.position().top,
        ensures
            spot == screen_spot(*state, cursor_controller.position()),
    {
        proof {
            cursor_controller.position_fits();
        }
        let y: usize = match state {
            States::Setup => 0,
            States::Editor => cursor_controller.get_y() + cursor_controller.get_min_height(),
        };
        let x = cursor_controller.get_x();
        (x as u16, y as u16)
    }
}


/// A centred header row is the header line after as many blanks as half the terminal's
/// width less half the line's length in bytes: the blanks come first, then the line itself.
pub proof fn law_centred_row(s: Seq<char>, width: u16)
    requires
        centrable(width, s),
    ensures
        ({
            let k = width / 2 - ((byte_len(s) / 2) as u16);
            let row = indented(s, padding(width, byte_len(s)));
            &&& row.len() == k + s.len()
            &&& (forall|i: int| 0 <= i < k ==> row[i] == ' ')
            &&& row.skip(k) == s
        }),
{
    let k = width / 2 - ((byte_len(s) / 2) as u16);
    let row = indented(s, padding(width, byte_len(s)));
    assert(row.skip(k) =~= s);
}

/// Exactly the line on the cursor's row is highlighted; every other line is drawn on the
/// background.
pub proof fn law_one_line_highlighted(n: nat, row: int)
    ensures
        shades(n, row).len() == n,
        forall|i: int| 0 <= i < n ==> (shades(n, row)[i] == Shade::Highlight <==> i == row),
        forall|i: int| 0 <= i < n && i != row ==> shades(n, row)[i] == Shade::Background,
{
}

/// The terminal cursor goes to the cursor's column in the text; on the list to the top row,
/// in the editor to the cursor's stored row.
pub proof fn law_screen_spot(state: States, c: CursorView)
    ensures
        screen_spot(state, c).0 == (c.x - c.left) as u16,
        state == States::Setup ==> screen_spot(state, c).1 == 0,
        state == States::Editor ==> screen_spot(state, c).1 == c.y as u16,
{
}

} // verus!
