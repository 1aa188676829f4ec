use note_editor::text::{
    at_boundary, byte_len, char_len, concatenated, contains, cut_after, cut_before, insert_char, join_terminated,
    remove_char, split_newlines_exec,
};

fn strings(v: &[&str]) -> Vec<String> {
    v.iter().map(|s| s.to_string()).collect()
}

#[test]
fn offsets_are_bytes() {
    let s = "aéz".to_string();
    assert_eq!(char_len(&s), 3);
    assert_eq!(byte_len(&s), 4);
    assert!(at_boundary(&s, 1));
    assert!(!at_boundary(&s, 2));
    assert!(at_boundary(&s, 4));
    assert!(!at_boundary(&s, 5));
    assert_eq!(cut_before(&s, 3), "aé");
    assert_eq!(cut_after(&s, 3), "z");
}

#[test]
fn insert_and_remove_characters() {
    assert_eq!(insert_char(&"ac".to_string(), 1, 'b'), "abc");
    assert_eq!(insert_char(&"".to_string(), 0, 'x'), "x");
    assert_eq!(remove_char(&"abc".to_string(), 1), "ac");
    assert_eq!(insert_char(&"éa".to_string(), 2, 'z'), "éza");
    assert_eq!(remove_char(&"aéb".to_string(), 1), "ab");
    assert_eq!(concatenated(&"ab".to_string(), &"cd".to_string()), "abcd");
}

#[test]
fn search_text_occurrence() {
    assert!(contains(&"pineapple".to_string(), &"apple".to_string()));
    assert!(contains(&"abc".to_string(), &"".to_string()));
    assert!(!contains(&"abc".to_string(), &"abcd".to_string()));
    assert!(!contains(&"abc".to_string(), &"ac".to_string()));
    assert!(contains(&"aab".to_string(), &"ab".to_string()));
}

#[test]
fn split_at_newlines() {
    assert_eq!(split_newlines_exec(&"a\nb\n".to_string()), strings(&["a", "b", ""]));
    assert_eq!(split_newlines_exec(&"".to_string()), strings(&[""]));
    assert_eq!(split_newlines_exec(&"\n\n".to_string()), strings(&["", "", ""]));
}

#[test]
fn join_ends_every_line_with_newline() {
    assert_eq!(join_terminated(&strings(&["a", "b"])), "a\nb\n");
    assert_eq!(join_terminated(&Vec::new()), "");
}

#[test]
fn split_after_join_adds_one_empty_line() {
    let lines = strings(&["x", "", "yz"]);
    let mut expected = lines.clone();
    expected.push(String::new());
    assert_eq!(split_newlines_exec(&join_terminated(&lines)), expected);
}

#[test]
fn join_after_split_adds_one_newline() {
    let text = "one\ntwo".to_string();
    assert_eq!(join_terminated(&split_newlines_exec(&text)), "one\ntwo\n");
}
