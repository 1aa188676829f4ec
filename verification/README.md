# note_editor

A terminal editor for short notes kept in a Supabase table. The list screen shows the
titles of the notes, filtered by a search text; Enter opens the title under the cursor,
Control-b goes back and forth between the list and the editor, Control-s stores the note,
Alt-q quits.

- `src/` is the editing logic, verified with Verus: the cursors (`cursor_controller`,
  `basic_cursor_controller`), the note and the list (`lines_controller`,
  `basic_line_controller`), the screen switching and what is fetched or stored
  (`state_controller`), what the screen shows (`renderer`), text helpers (`text`), the
  table addresses and rows (`supabase`), and the keys (`keys`).
- `app/` is the program around it: the terminal (crossterm), the network (reqwest on
  tokio), the environment (dotenv) and the key loop.

Columns are byte offsets into the UTF-8 text of a line, as `String` indexes it. A note is
stored as its lines, each followed by a newline.
