use note_editor::basic_cursor_controller::BaseCusorController;
use note_editor::basic_line_controller::BaseLineController;
use note_editor::cursor_controller::CursorController;
use note_editor::keys::{KeyCode, KeyEvent, KeyModifiers};
use note_editor::lines_controller::LinesController;
use note_editor::reader::Reader;
use note_editor::renderer::{Renderer, Shade};
use note_editor::state_controller::{Request, StateController};
use note_editor::states::States;
use note_editor::supabase::{header_titles, header_url, headers_url, table_url, Headers, Resp};
use note_editor::traits::{CursorC, LineC};

fn strings(v: &[&str]) -> Vec<String> {
    v.iter().map(|s| s.to_string()).collect()
}

fn ctrl(c: char) -> KeyEvent {
    KeyEvent::new(KeyCode::Char(c), KeyModifiers::Control)
}

fn setup() -> (StateController, BaseLineController, BaseCusorController, LinesController, CursorController) {
    let s = StateController::new(States::Setup, "notes".to_string());
    let b = BaseLineController::new(strings(&["groceries", "ideas"]), strings(&[""]));
    let bc = BaseCusorController::new(1);
    let l = LinesController::new(strings(&["Fisk"]), strings(&["Fisk", "It is working"]));
    let c = CursorController::new(2, 0);
    (s, b, bc, l, c)
}

#[test]
fn control_b_switches_screens() {
    let (mut s, mut b, bc, mut l, c) = setup();
    let r = s.take_input(ctrl('b'), &b, &mut l, &bc, &c);
    assert!(matches!(r, Request::Redraw));
    assert_eq!(s.state, States::Editor);
    let r = s.take_input(ctrl('b'), &l, &mut b, &c, &bc);
    assert!(matches!(r, Request::FetchHeaders));
    assert_eq!(s.state, States::Setup);
}

#[test]
fn enter_on_list_opens_title_under_cursor() {
    let (mut s, b, mut bc, mut l, c) = setup();
    bc.change_y(2);
    let r = s.take_input(KeyEvent::new(KeyCode::Enter, KeyModifiers::Plain), &b, &mut l, &bc, &c);
    match r {
        Request::FetchNote(t) => assert_eq!(t, "ideas"),
        _ => panic!("expected a fetch"),
    }
    assert_eq!(s.state, States::Editor);
    assert_eq!(l.get_header(), &strings(&["ideas", "It is working"]));
}

#[test]
fn enter_in_editor_is_passed_on() {
    let (mut s, mut b, bc, l, c) = setup();
    s.state = States::Editor;
    let r = s.take_input(KeyEvent::new(KeyCode::Enter, KeyModifiers::Plain), &l, &mut b, &c, &bc);
    assert!(matches!(r, Request::Pass));
    assert_eq!(s.state, States::Editor);
}

#[test]
fn control_s_in_editor_stores_lines() {
    let (mut s, mut b, bc, _, c) = setup();
    s.state = States::Editor;
    let l = LinesController::new(strings(&["one", "two"]), strings(&["Shopping", "Not Saved"]));
    let r = s.take_input(ctrl('s'), &l, &mut b, &c, &bc);
    match r {
        Request::Save(h, content) => {
            assert_eq!(h, "Shopping");
            assert_eq!(content, "one\ntwo\n");
        }
        _ => panic!("expected a save"),
    }
}

#[test]
fn control_s_on_list_is_passed_on() {
    let (mut s, b, bc, mut l, c) = setup();
    let r = s.take_input(ctrl('s'), &b, &mut l, &bc, &c);
    assert!(matches!(r, Request::Pass));
    let r = s.take_input(KeyEvent::new(KeyCode::Char('x'), KeyModifiers::Plain), &b, &mut l, &bc, &c);
    assert!(matches!(r, Request::Pass));
    assert_eq!(s.state, States::Setup);
}

#[test]
fn state_controller_refuses_open_off_the_list() {
    let (s, b, mut bc, l, _) = setup();
    bc.change_y(5);
    assert!(!s.can_take(KeyEvent::new(KeyCode::Enter, KeyModifiers::Plain), &b, &l, &bc));
    assert!(s.can_take(ctrl('b'), &b, &l, &bc));
}

#[test]
fn fetched_note_is_opened_in_editor() {
    let (s, _, _, mut l, mut c) = setup();
    c.change_x(3);
    let records = vec![Resp::new(Some(1), None, "ideas".to_string(), "a\nb".to_string())];
    s.note_fetched(&records, &mut l, &mut c);
    assert_eq!(l.get_lines(), &strings(&["a", "b"]));
    assert_eq!(l.get_header()[1], "Not Saved");
    assert_eq!(c.get_x(), 0);
    assert_eq!(c.get_y(), 0);
    assert_eq!(c.get_min_height(), 2);
}

#[test]
fn saved_note_reopens_with_one_empty_line_more() {
    let (mut s, mut b, bc, _, mut c) = setup();
    s.state = States::Editor;
    let mut l = LinesController::new(strings(&["one", "two"]), strings(&["Shopping", "Not Saved"]));
    let content = match s.take_input(ctrl('s'), &l, &mut b, &c, &bc) {
        Request::Save(_, content) => content,
        _ => panic!("expected a save"),
    };
    s.saved(&mut l);
    assert_eq!(l.get_header()[1], "Saved");
    let records = vec![Resp::new(None, None, "Shopping".to_string(), content)];
    s.note_fetched(&records, &mut l, &mut c);
    assert_eq!(l.get_lines(), &strings(&["one", "two", ""]));
}

#[test]
fn fetched_titles_replace_list() {
    let (s, mut b, _, _, _) = setup();
    let list = vec![Headers { header: "x".to_string() }, Headers { header: "y".to_string() }];
    s.headers_fetched(&list, &mut b);
    assert_eq!(b.get_spec(), &strings(&["x", "y"]));
}

#[test]
fn handle_key_passes_typing_to_the_list() {
    let (mut s, mut b, mut bc, mut l, _) = setup();
    let reader = Reader::new();
    let ev = KeyEvent::new(KeyCode::Char('d'), KeyModifiers::Plain);
    assert!(s.can_handle(ev, &b, &bc, &l));
    let (keep, r) = s.handle_key(&reader, ev, &mut b, &mut bc, &mut l, &CursorController::new(2, 0));
    assert!(keep);
    assert!(matches!(r, Request::Pass));
    assert_eq!(b.get_header()[0], "d");
    assert_eq!(b.get_lines(), &strings(&["ideas"]));
    assert_eq!(bc.get_x(), 1);
}

#[test]
fn handle_key_moves_cursor_before_opening() {
    let (mut s, mut b, mut bc, mut l, _) = setup();
    let reader = Reader::new();
    let ev = KeyEvent::new(KeyCode::Down, KeyModifiers::Plain);
    let (_, r) = s.handle_key(&reader, ev, &mut b, &mut bc, &mut l, &CursorController::new(2, 0));
    assert!(matches!(r, Request::Pass));
    assert_eq!(bc.get_y(), 1);
    let ev = KeyEvent::new(KeyCode::Enter, KeyModifiers::Plain);
    let (_, r) = s.handle_key(&reader, ev, &mut b, &mut bc, &mut l, &CursorController::new(2, 0));
    match r {
        Request::FetchNote(t) => assert_eq!(t, "ideas"),
        _ => panic!("expected a fetch"),
    }
    assert_eq!(s.state, States::Editor);
    assert_eq!(b.get_spec(), &strings(&["groceries", "ideas"]));
}

#[test]
fn handle_key_alt_q_still_types_then_stops() {
    let (mut s, mut b, mut bc, mut l, mut c) = setup();
    s.state = States::Editor;
    let reader = Reader::new();
    let ev = KeyEvent::new(KeyCode::Char('q'), KeyModifiers::Alt);
    assert!(s.can_handle(ev, &l, &c, &b));
    let (keep, r) = s.handle_key(&reader, ev, &mut l, &mut c, &mut b, &bc);
    assert!(!keep);
    assert!(matches!(r, Request::Pass));
    assert_eq!(l.get_lines(), &strings(&["qFisk"]));
    let _ = &mut bc;
}

#[test]
fn can_handle_refuses_keys_the_screen_cannot_take() {
    let (s, b, mut bc, l, _) = setup();
    bc.change_y(9);
    assert!(!s.can_handle(KeyEvent::new(KeyCode::Enter, KeyModifiers::Plain), &b, &bc, &l));
    let (s, _, bc, mut l, mut c) = setup();
    let mut s = s;
    s.state = States::Editor;
    c.change_x(7);
    assert!(!s.can_handle(KeyEvent::new(KeyCode::Char('x'), KeyModifiers::Plain), &l, &c, &bc_list()));
    let _ = (&mut l, bc);
}

fn bc_list() -> BaseLineController {
    BaseLineController::new(strings(&["a"]), strings(&[""]))
}

#[test]
fn reader_stops_on_alt_q_only() {
    let r = Reader::new();
    assert!(!r.read_quit(KeyEvent::new(KeyCode::Char('q'), KeyModifiers::Alt)));
    assert!(r.read_quit(KeyEvent::new(KeyCode::Char('q'), KeyModifiers::Plain)));
    assert!(r.read_quit(KeyEvent::new(KeyCode::Char('w'), KeyModifiers::Alt)));
}

#[test]
fn header_is_centred() {
    let r = Renderer::new();
    let rows = r.render_header(&strings(&["abcd", "xy"]), 10);
    assert_eq!(rows, strings(&["   abcd", "    xy"]));
}

#[test]
fn single_header_line_is_not_centred() {
    let r = Renderer::new();
    assert_eq!(r.render_header(&strings(&["abcd"]), 10), strings(&["abcd"]));
    assert_eq!(r.render_header(&Vec::new(), 10).len(), 0);
}

#[test]
fn header_centring_counts_bytes() {
    let r = Renderer::new();
    let rows = r.render_header(&strings(&["éé", "ab"]), 10);
    assert_eq!(rows, strings(&["   éé", "    ab"]));
}

#[test]
fn cursor_row_is_highlighted() {
    let r = Renderer::new();
    let mut c = CursorController::new(2, 0);
    c.change_y(3);
    let shades = r.render_lines(&strings(&["a", "b", "c"]), &c);
    assert_eq!(shades, vec![Shade::Background, Shade::Highlight, Shade::Background]);
}

#[test]
fn terminal_cursor_position() {
    let r = Renderer::new();
    let mut c = CursorController::new(2, 0);
    c.change_x(4);
    c.change_y(3);
    assert_eq!(r.cursor_position(&States::Editor, &c), (4, 3));
    assert_eq!(r.cursor_position(&States::Setup, &c), (4, 0));
}

#[test]
fn table_addresses() {
    let base = "https://db.example/rest/v1".to_string();
    assert_eq!(table_url(&base, "notes"), "https://db.example/rest/v1/notes");
    assert_eq!(headers_url(&base, "notes"), "https://db.example/rest/v1/notes?select=header");
    assert_eq!(header_url(&base, "notes", "ideas"), "https://db.example/rest/v1/notes?header=eq.ideas");
}

#[test]
fn titles_of_listed_rows() {
    let list = vec![Headers { header: "a".to_string() }, Headers { header: "b".to_string() }];
    assert_eq!(header_titles(&list), strings(&["a", "b"]));
    let r = Resp::new(Some(3), Some("now".to_string()), "t".to_string(), "c".to_string());
    assert_eq!(r.get_id(), Some(3));
    assert_eq!(r.get_created_at(), Some("now".to_string()));
    assert_eq!(r.get_header(), "t");
    assert_eq!(r.get_content(), "c");
}
