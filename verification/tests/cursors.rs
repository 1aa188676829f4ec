use note_editor::basic_cursor_controller::BaseCusorController;
use note_editor::cursor_controller::CursorController;
use note_editor::keys::{KeyCode, KeyEvent, KeyModifiers};
use note_editor::traits::CursorC;

fn key(code: KeyCode) -> KeyEvent {
    KeyEvent::new(code, KeyModifiers::Plain)
}

fn lines(v: &[&str]) -> Vec<String> {
    v.iter().map(|s| s.to_string()).collect()
}

#[test]
fn editor_cursor_starts_below_header() {
    let c = CursorController::new(2, 0);
    assert_eq!(c.get_x(), 0);
    assert_eq!(c.get_y(), 0);
    assert_eq!(c.get_min_height(), 2);
    assert_eq!(c.cursor_y, 2);
}

#[test]
fn editor_cursor_right_stops_at_line_end() {
    let ls = lines(&["ab", "cdef"]);
    let mut c = CursorController::new(2, 0);
    c.take_input(key(KeyCode::Right), &ls);
    c.take_input(key(KeyCode::Right), &ls);
    assert_eq!(c.get_x(), 2);
    c.take_input(key(KeyCode::Right), &ls);
    assert_eq!(c.get_x(), 2);
}

#[test]
fn editor_cursor_right_counts_bytes() {
    let ls = lines(&["éa"]);
    let mut c = CursorController::new(0, 0);
    for _ in 0..5 {
        c.take_input(key(KeyCode::Right), &ls);
    }
    assert_eq!(c.get_x(), 3);
}

#[test]
fn editor_cursor_up_and_down_clamp_to_bytes() {
    let ls = lines(&["é", "ab"]);
    let mut c = CursorController::new(0, 0);
    c.change_y(1);
    c.change_x(2);
    c.take_input(key(KeyCode::Up), &ls);
    assert_eq!(c.get_y(), 0);
    assert_eq!(c.get_x(), 2);
    let ls = lines(&["ab", "é"]);
    let mut c = CursorController::new(0, 0);
    c.change_x(2);
    c.take_input(key(KeyCode::Down), &ls);
    assert_eq!(c.get_y(), 1);
    assert_eq!(c.get_x(), 2);
}

#[test]
fn editor_cursor_left_stops_at_margin() {
    let ls = lines(&["ab"]);
    let mut c = CursorController::new(0, 0);
    c.take_input(key(KeyCode::Left), &ls);
    assert_eq!(c.get_x(), 0);
    c.change_x(2);
    c.take_input(key(KeyCode::Left), &ls);
    assert_eq!(c.get_x(), 1);
}

#[test]
fn editor_cursor_down_pulls_column_back() {
    let ls = lines(&["abcdef", "xy", "z"]);
    let mut c = CursorController::new(1, 0);
    c.change_x(5);
    c.take_input(key(KeyCode::Down), &ls);
    assert_eq!(c.get_y(), 1);
    assert_eq!(c.get_x(), 2);
    c.take_input(key(KeyCode::Down), &ls);
    assert_eq!(c.get_y(), 2);
    assert_eq!(c.get_x(), 1);
    c.take_input(key(KeyCode::Down), &ls);
    assert_eq!(c.get_y(), 2);
    assert_eq!(c.get_x(), 1);
}

#[test]
fn editor_cursor_up_pulls_column_back_and_stops_at_top() {
    let ls = lines(&["a", "xyz"]);
    let mut c = CursorController::new(2, 0);
    c.change_y(3);
    c.change_x(3);
    c.take_input(key(KeyCode::Up), &ls);
    assert_eq!(c.get_y(), 0);
    assert_eq!(c.get_x(), 1);
    c.take_input(key(KeyCode::Up), &ls);
    assert_eq!(c.get_y(), 0);
    assert_eq!(c.get_x(), 1);
}

#[test]
fn editor_cursor_ignores_keys_with_modifiers() {
    let ls = lines(&["abc"]);
    let mut c = CursorController::new(0, 0);
    c.take_input(KeyEvent::new(KeyCode::Right, KeyModifiers::Control), &ls);
    assert_eq!(c.get_x(), 0);
    c.take_input(key(KeyCode::Char('a')), &ls);
    assert_eq!(c.get_x(), 0);
}

#[test]
fn editor_cursor_reset_goes_below_new_header() {
    let mut c = CursorController::new(2, 0);
    c.change_x(4);
    c.change_y(7);
    c.reset(&lines(&["title", "status", "third"]));
    assert_eq!(c.get_min_height(), 3);
    assert_eq!(c.get_x(), 0);
    assert_eq!(c.get_y(), 0);
    assert_eq!(c.cursor_y, 3);
}

#[test]
fn editor_cursor_margin_is_taken_off_column() {
    let c = CursorController::new(0, 3);
    assert!(!c.x_in_margin());
    let mut c = c;
    c.change_x(5);
    assert!(c.x_in_margin());
    assert_eq!(c.get_x(), 2);
}

#[test]
fn editor_cursor_refuses_keys_outside_lines() {
    let c = CursorController::new(0, 0);
    assert!(!c.can_take(key(KeyCode::Down), &Vec::new()));
    assert!(!c.can_take(key(KeyCode::Right), &Vec::new()));
    assert!(c.can_take(key(KeyCode::Up), &Vec::new()));
    assert!(c.can_take(key(KeyCode::Left), &Vec::new()));
    let mut c = c;
    c.change_y(5);
    assert!(!c.can_take(key(KeyCode::Up), &lines(&["a"])));
    assert!(c.can_take(key(KeyCode::Up), &lines(&["a", "b", "c", "d", "e"])));
}

#[test]
fn editor_cursor_stays_on_text_over_a_walk() {
    let ls = lines(&["hello", "", "wide lïne hére", "x"]);
    let mut c = CursorController::new(2, 0);
    let walk = [
        KeyCode::Right, KeyCode::Right, KeyCode::Right, KeyCode::Down, KeyCode::Down,
        KeyCode::Right, KeyCode::Right, KeyCode::Down, KeyCode::Up, KeyCode::Up, KeyCode::Up,
        KeyCode::Left, KeyCode::Down, KeyCode::Down, KeyCode::Down, KeyCode::Down,
    ];
    for code in walk.iter() {
        c.take_input(key(*code), &ls);
        let y = c.get_y();
        assert!(y < ls.len());
        assert!(c.get_x() <= ls[y].len());
    }
}

#[test]
fn list_cursor_moves_between_rows() {
    let ls = lines(&["one", "two"]);
    let mut c = BaseCusorController::new(1);
    assert_eq!(c.get_y(), 0);
    c.take_input(key(KeyCode::Up), &ls);
    assert_eq!(c.get_y(), 0);
    c.take_input(key(KeyCode::Down), &ls);
    assert_eq!(c.cursor_y, 2);
    c.take_input(key(KeyCode::Down), &ls);
    assert_eq!(c.cursor_y, 2);
    c.take_input(key(KeyCode::Up), &ls);
    assert_eq!(c.cursor_y, 1);
    c.take_input(key(KeyCode::Right), &ls);
    assert_eq!(c.get_x(), 0);
    assert!(c.can_take(key(KeyCode::Down), &Vec::new()));
}

#[test]
fn list_cursor_reset_and_changes() {
    let mut c = BaseCusorController::new(1);
    c.change_x(3);
    assert_eq!(c.get_x(), 3);
    c.reset(&lines(&["a", "b"]));
    assert_eq!(c.get_x(), 0);
    assert_eq!(c.get_min_height(), 2);
    assert_eq!(c.cursor_y, 2);
    c.change_y(0);
    assert!(!c.y_in_margin());
}
