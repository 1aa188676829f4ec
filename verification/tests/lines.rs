use note_editor::basic_cursor_controller::BaseCusorController;
use note_editor::basic_line_controller::BaseLineController;
use note_editor::cursor_controller::CursorController;
use note_editor::keys::{KeyCode, KeyEvent, KeyModifiers};
use note_editor::lines_controller::LinesController;
use note_editor::traits::{CursorC, LineC};

fn key(code: KeyCode) -> KeyEvent {
    KeyEvent::new(code, KeyModifiers::Plain)
}

fn strings(v: &[&str]) -> Vec<String> {
    v.iter().map(|s| s.to_string()).collect()
}

fn note(v: &[&str]) -> (LinesController, CursorController) {
    let l = LinesController::new(strings(v), strings(&["Title", "Saved"]));
    let c = CursorController::new(2, 0);
    (l, c)
}

#[test]
fn typing_inserts_at_cursor_and_marks_unsaved() {
    let (mut l, mut c) = note(&["hllo"]);
    c.change_x(1);
    l.take_input(key(KeyCode::Char('e')), &mut c);
    assert_eq!(l.get_lines(), &strings(&["hello"]));
    assert_eq!(c.get_x(), 2);
    assert_eq!(l.get_header(), &strings(&["Title", "Not Saved"]));
}

#[test]
fn typing_with_shift_still_types() {
    let (mut l, mut c) = note(&["ab"]);
    l.take_input(KeyEvent::new(KeyCode::Char('X'), KeyModifiers::Combined), &mut c);
    assert_eq!(l.get_lines(), &strings(&["Xab"]));
}

#[test]
fn ignored_letters_do_nothing_but_mark_unsaved() {
    let (mut l, mut c) = note(&["ab"]);
    for ch in ['å', 'æ', 'ø'].iter() {
        l.take_input(key(KeyCode::Char(*ch)), &mut c);
    }
    assert_eq!(l.get_lines(), &strings(&["ab"]));
    assert_eq!(c.get_x(), 0);
    assert_eq!(l.get_header()[1], "Not Saved");
}

#[test]
fn typing_goes_in_at_byte_offset() {
    let (mut l, mut c) = note(&["éa"]);
    c.change_x(2);
    l.take_input(key(KeyCode::Char('z')), &mut c);
    assert_eq!(l.get_lines(), &strings(&["éza"]));
    assert_eq!(c.get_x(), 3);
}

#[test]
fn typing_a_wide_letter_moves_one_byte() {
    let (mut l, mut c) = note(&["ab"]);
    c.change_x(1);
    l.take_input(key(KeyCode::Char('é')), &mut c);
    assert_eq!(l.get_lines(), &strings(&["aéb"]));
    assert_eq!(c.get_x(), 2);
    assert!(!l.can_take(key(KeyCode::Char('z')), &c));
    assert!(l.can_take(key(KeyCode::Backspace), &c));
    l.take_input(key(KeyCode::Backspace), &mut c);
    assert_eq!(l.get_lines(), &strings(&["ab"]));
    assert_eq!(c.get_x(), 1);
}

#[test]
fn enter_cuts_at_byte_offset() {
    let (mut l, mut c) = note(&["éa"]);
    c.change_x(2);
    l.take_input(key(KeyCode::Enter), &mut c);
    assert_eq!(l.get_lines(), &strings(&["é", "a"]));
}

#[test]
fn backspace_join_goes_to_byte_length_above() {
    let (mut l, mut c) = note(&["é", "a"]);
    c.change_y(3);
    l.take_input(key(KeyCode::Backspace), &mut c);
    assert_eq!(l.get_lines(), &strings(&["éa"]));
    assert_eq!(c.get_x(), 2);
}

#[test]
fn delete_takes_whole_character() {
    let (mut l, mut c) = note(&["aéb"]);
    c.change_x(1);
    l.take_input(key(KeyCode::Delete), &mut c);
    assert_eq!(l.get_lines(), &strings(&["ab"]));
    let (l2, mut d) = note(&["é"]);
    d.change_x(1);
    assert!(!l2.can_take(key(KeyCode::Delete), &d));
    d.change_x(2);
    assert!(l2.can_take(key(KeyCode::Delete), &d));
}

#[test]
fn enter_splits_line_at_cursor() {
    let (mut l, mut c) = note(&["first", "hello world", "last"]);
    c.change_y(3);
    c.change_x(5);
    l.take_input(key(KeyCode::Enter), &mut c);
    assert_eq!(l.get_lines(), &strings(&["first", "hello", " world", "last"]));
    assert_eq!(c.get_x(), 0);
    assert_eq!(c.get_y(), 2);
}

#[test]
fn backspace_removes_character_before_cursor() {
    let (mut l, mut c) = note(&["abc"]);
    c.change_x(2);
    l.take_input(key(KeyCode::Backspace), &mut c);
    assert_eq!(l.get_lines(), &strings(&["ac"]));
    assert_eq!(c.get_x(), 1);
}

#[test]
fn backspace_at_line_start_joins_with_line_above() {
    let (mut l, mut c) = note(&["ab", "cd"]);
    c.change_y(3);
    l.take_input(key(KeyCode::Backspace), &mut c);
    assert_eq!(l.get_lines(), &strings(&["abcd"]));
    assert_eq!(c.get_x(), 2);
    assert_eq!(c.get_y(), 0);
}

#[test]
fn backspace_at_start_of_first_line_does_nothing() {
    let (mut l, mut c) = note(&["ab", "cd"]);
    l.take_input(key(KeyCode::Backspace), &mut c);
    assert_eq!(l.get_lines(), &strings(&["ab", "cd"]));
    assert_eq!(c.get_x(), 0);
    assert_eq!(c.get_y(), 0);
}

#[test]
fn delete_removes_character_under_cursor() {
    let (mut l, mut c) = note(&["abc"]);
    c.change_x(1);
    l.take_input(key(KeyCode::Delete), &mut c);
    assert_eq!(l.get_lines(), &strings(&["ac"]));
    assert_eq!(c.get_x(), 1);
}

#[test]
fn delete_at_line_end_joins_next_line() {
    let (mut l, mut c) = note(&["ab", "cd"]);
    c.change_x(2);
    l.take_input(key(KeyCode::Delete), &mut c);
    assert_eq!(l.get_lines(), &strings(&["abcd"]));
    assert_eq!(c.get_x(), 2);
}

#[test]
fn delete_at_end_of_last_line_does_nothing() {
    let (mut l, mut c) = note(&["ab"]);
    c.change_x(2);
    l.take_input(key(KeyCode::Delete), &mut c);
    assert_eq!(l.get_lines(), &strings(&["ab"]));
}

#[test]
fn other_keys_only_mark_unsaved() {
    let (mut l, mut c) = note(&["ab"]);
    l.take_input(key(KeyCode::Other), &mut c);
    l.take_input(KeyEvent::new(KeyCode::Enter, KeyModifiers::Control), &mut c);
    assert_eq!(l.get_lines(), &strings(&["ab"]));
    assert_eq!(l.get_header()[1], "Not Saved");
}

#[test]
fn type_then_backspace_restores_note() {
    let (mut l, mut c) = note(&["some text", "more"]);
    c.change_y(3);
    c.change_x(2);
    l.take_input(key(KeyCode::Char('!')), &mut c);
    l.take_input(key(KeyCode::Backspace), &mut c);
    assert_eq!(l.get_lines(), &strings(&["some text", "more"]));
    assert_eq!(c.get_x(), 2);
    assert_eq!(c.get_y(), 1);
}

#[test]
fn enter_then_backspace_restores_note() {
    let (mut l, mut c) = note(&["some text", "more"]);
    c.change_x(4);
    l.take_input(key(KeyCode::Enter), &mut c);
    l.take_input(key(KeyCode::Backspace), &mut c);
    assert_eq!(l.get_lines(), &strings(&["some text", "more"]));
    assert_eq!(c.get_x(), 4);
    assert_eq!(c.get_y(), 0);
}

#[test]
fn note_refuses_keys_with_cursor_off_text() {
    let (l, mut c) = note(&["ab"]);
    c.change_x(3);
    assert!(!l.can_take(key(KeyCode::Char('a')), &c));
    assert!(!l.can_take(key(KeyCode::Delete), &c));
    assert!(l.can_take(key(KeyCode::Char('å')), &c));
    assert!(l.can_take(key(KeyCode::Left), &c));
    let l2 = LinesController::new(strings(&["ab"]), strings(&["only title"]));
    assert!(!l2.can_take(key(KeyCode::Left), &c));
}

#[test]
fn note_title_status_and_lines_can_be_replaced() {
    let (mut l, _) = note(&["ab"]);
    l.change_title("New".to_string());
    l.change_status("Saved".to_string());
    l.change_lines(strings(&["x", "y"]));
    assert_eq!(l.get_header(), &strings(&["New", "Saved"]));
    assert_eq!(l.get_lines(), &strings(&["x", "y"]));
    assert_eq!(l.get_spec(), &strings(&["x", "y"]));
}

fn list(titles: &[&str]) -> (BaseLineController, BaseCusorController) {
    let b = BaseLineController::new(strings(titles), strings(&[""]));
    let c = BaseCusorController::new(1);
    (b, c)
}

#[test]
fn list_shows_all_titles_without_search() {
    let (b, _) = list(&["apple", "banana"]);
    assert_eq!(b.get_lines(), &strings(&["apple", "banana"]));
    assert_eq!(b.get_spec(), &strings(&["apple", "banana"]));
}

#[test]
fn list_search_filters_titles() {
    let (mut b, mut c) = list(&["apple", "banana", "grape", "pineapple"]);
    b.take_input(key(KeyCode::Char('a')), &mut c);
    b.take_input(key(KeyCode::Char('p')), &mut c);
    assert_eq!(b.get_header()[0], "ap");
    assert_eq!(b.get_lines(), &strings(&["apple", "grape", "pineapple"]));
    assert_eq!(b.get_spec(), &strings(&["apple", "banana", "grape", "pineapple"]));
    assert_eq!(c.get_x(), 2);
    b.take_input(key(KeyCode::Backspace), &mut c);
    b.take_input(key(KeyCode::Backspace), &mut c);
    assert_eq!(b.get_header()[0], "");
    assert_eq!(b.get_lines(), &strings(&["apple", "banana", "grape", "pineapple"]));
    assert_eq!(c.get_x(), 0);
}

#[test]
fn list_search_pulls_cursor_back_onto_results() {
    let (mut b, mut c) = list(&["apple", "banana", "cherry", "date"]);
    c.change_y(4);
    b.take_input(key(KeyCode::Char('n')), &mut c);
    assert_eq!(b.get_lines(), &strings(&["banana"]));
    assert_eq!(c.cursor_y, 1);
}

#[test]
fn list_search_without_results_leaves_cursor() {
    let (mut b, mut c) = list(&["apple"]);
    c.change_y(1);
    b.take_input(key(KeyCode::Char('z')), &mut c);
    assert_eq!(b.get_lines().len(), 0);
    assert_eq!(c.cursor_y, 1);
}

#[test]
fn list_enter_copies_title_to_end() {
    let (mut b, mut c) = list(&["apple", "banana"]);
    c.change_y(2);
    b.take_input(key(KeyCode::Enter), &mut c);
    assert_eq!(b.get_spec(), &strings(&["apple", "banana", "banana"]));
    assert_eq!(b.get_lines(), &strings(&["apple", "banana", "banana"]));
}

#[test]
fn list_change_lines_keeps_shown_until_next_key() {
    let (mut b, mut c) = list(&["apple"]);
    b.change_lines(strings(&["kiwi", "lime"]));
    assert_eq!(b.get_spec(), &strings(&["kiwi", "lime"]));
    assert_eq!(b.get_lines(), &strings(&["apple"]));
    b.take_input(key(KeyCode::Other), &mut c);
    assert_eq!(b.get_lines(), &strings(&["kiwi", "lime"]));
}

#[test]
fn list_refuses_keys_it_cannot_take() {
    let b = BaseLineController::new(strings(&["a"]), Vec::new());
    let c = BaseCusorController::new(1);
    assert!(!b.can_take(key(KeyCode::Other), &c));
    let (b, mut c) = list(&["a"]);
    assert!(b.can_take(key(KeyCode::Char('x')), &c));
    c.change_x(1);
    assert!(!b.can_take(key(KeyCode::Char('x')), &c));
    c.change_x(0);
    c.change_y(0);
    assert!(!b.can_take(key(KeyCode::Char('x')), &c));
    assert!(b.can_take(key(KeyCode::Other), &c));
}
