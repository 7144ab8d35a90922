use bfrepl::widgets::TextEntry;

#[test]
fn new_entry_is_empty() {
    let t = TextEntry::new();
    assert_eq!(t.get_str(), "");
    assert_eq!(t.get_cursor_pos(), 0);
    let d = TextEntry::default();
    assert_eq!(d.get_str(), "");
}

#[test]
fn insert_types_at_cursor() {
    let mut t = TextEntry::new();
    t.insert('a');
    t.insert('c');
    t.move_cursor_left();
    t.insert('b');
    assert_eq!(t.get_str(), "abc");
    assert_eq!(t.get_cursor_pos(), 2);
}

#[test]
fn insert_handles_multibyte_chars() {
    let mut t = TextEntry::new();
    t.insert('é');
    t.insert('ß');
    t.move_cursor_home();
    t.insert('x');
    assert_eq!(t.get_str(), "xéß");
    t.move_cursor_end();
    assert_eq!(t.get_cursor_pos(), 3);
}

#[test]
fn remove_deletes_before_cursor() {
    let mut t = TextEntry::new();
    t.set_text("abc".to_string());
    t.move_cursor_end();
    t.move_cursor_left();
    t.remove();
    assert_eq!(t.get_str(), "ac");
    assert_eq!(t.get_cursor_pos(), 1);
}

#[test]
fn remove_at_start_does_nothing() {
    let mut t = TextEntry::new();
    t.set_text("abc".to_string());
    t.remove();
    assert_eq!(t.get_str(), "abc");
    let mut e = TextEntry::new();
    e.remove();
    assert_eq!(e.get_str(), "");
}

#[test]
fn cursor_moves_stay_in_bounds() {
    let mut t = TextEntry::new();
    t.set_text("ab".to_string());
    t.move_cursor_left();
    assert_eq!(t.get_cursor_pos(), 0);
    t.move_cursor_right();
    t.move_cursor_right();
    t.move_cursor_right();
    assert_eq!(t.get_cursor_pos(), 2);
    t.move_cursor_home();
    assert_eq!(t.get_cursor_pos(), 0);
}

#[test]
fn set_text_keeps_cursor() {
    let mut t = TextEntry::new();
    t.set_text("abc".to_string());
    t.move_cursor_end();
    t.set_text("a".to_string());
    assert_eq!(t.get_str(), "a");
    assert_eq!(t.get_cursor_pos(), 3);
}

#[test]
fn insert_past_end_appends() {
    let mut t = TextEntry::new();
    t.set_text("abc".to_string());
    t.move_cursor_end();
    t.set_text("a".to_string());
    t.insert('z');
    assert_eq!(t.get_str(), "az");
    assert_eq!(t.get_cursor_pos(), 3);
}

#[test]
fn remove_past_end_removes_last() {
    let mut t = TextEntry::new();
    t.set_text("abcd".to_string());
    t.move_cursor_end();
    t.set_text("xy".to_string());
    t.remove();
    assert_eq!(t.get_str(), "x");
    assert_eq!(t.get_cursor_pos(), 1);
}

#[test]
fn take_and_clear_empty_the_field() {
    let mut t = TextEntry::new();
    t.insert('h');
    t.insert('i');
    assert_eq!(t.take(), "hi");
    assert_eq!(t.get_str(), "");
    assert_eq!(t.get_cursor_pos(), 2);
    t.insert('x');
    t.clear();
    assert_eq!(t.get_str(), "");
    assert_eq!(t.get_cursor_pos(), 0);
}
