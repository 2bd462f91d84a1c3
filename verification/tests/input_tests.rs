use hfs_rs::input::{KeyCommand, Modifiers, TextInput, TextInputEvent, key_command, paste_text};

fn plain() -> Modifiers {
    Modifiers { control: false, platform: false, shift: false }
}

fn shift() -> Modifiers {
    Modifiers { control: false, platform: false, shift: true }
}

fn ctrl() -> Modifiers {
    Modifiers { control: true, platform: false, shift: false }
}

fn input_with(text: &str) -> TextInput {
    let mut t = TextInput::new("type here".to_string());
    t.set_text_silent(text.to_string());
    t
}

#[test]
fn new_input_is_empty() {
    let t = TextInput::new("name".to_string());
    assert_eq!(t.text(), "");
    assert_eq!(t.placeholder, "name");
    assert_eq!(t.selected_range, 0..0);
    assert_eq!(t.marked_range, None);
    assert!(!t.selection_reversed);
    assert!(!t.is_secret);
}

#[test]
fn set_text_puts_cursor_at_end_and_reports_change() {
    let mut t = TextInput::new(String::new());
    let ev = t.set_text("h\u{e9}llo".to_string());
    assert_eq!(ev, TextInputEvent::Change("h\u{e9}llo".to_string()));
    assert_eq!(t.selected_range, 6..6);
    assert_eq!(t.cursor_offset(), 6);
    let ev = t.clear();
    assert_eq!(ev, TextInputEvent::Change(String::new()));
    assert_eq!(t.text(), "");
    assert_eq!(t.selected_range, 0..0);
}

#[test]
fn key_names_map_to_commands() {
    assert_eq!(key_command("a", true), KeyCommand::SelectAll);
    assert_eq!(key_command("V", true), KeyCommand::Paste);
    assert_eq!(key_command("enter", true), KeyCommand::Ignored);
    assert_eq!(key_command("enter", false), KeyCommand::Enter);
    assert_eq!(key_command("a", false), KeyCommand::Ignored);
    assert_eq!(key_command("backspace", false), KeyCommand::Backspace);
    assert!(TextInput::needs_clipboard("v", ctrl()));
    assert!(!TextInput::needs_clipboard("v", plain()));
}

#[test]
fn select_all_then_copy_and_cut() {
    let mut t = input_with("ab");
    let out = t.handle_key_down("c", ctrl(), None);
    assert_eq!(out.copied, None);
    let out = t.handle_key_down("a", ctrl(), None);
    assert_eq!(out.copied, None);
    assert_eq!(out.event, None);
    assert_eq!(t.selected_range, 0..2);
    let out = t.handle_key_down("C", ctrl(), None);
    assert_eq!(out.copied, Some("ab".to_string()));
    assert_eq!(t.text(), "ab");
    let out = t.handle_key_down("x", ctrl(), None);
    assert_eq!(out.copied, Some("ab".to_string()));
    assert_eq!(out.event, Some(TextInputEvent::Change(String::new())));
    assert_eq!(t.text(), "");
    assert_eq!(t.selected_range, 0..0);
}

#[test]
fn paste_turns_line_breaks_into_spaces() {
    assert_eq!(paste_text("a\r\nb"), "a  b");
    let mut t = input_with("xy");
    t.move_to(1);
    let out = t.handle_key_down("v", ctrl(), Some("a\r\nb".to_string()));
    assert_eq!(t.text(), "xa  by");
    assert_eq!(t.selected_range, 5..5);
    assert_eq!(out.event, Some(TextInputEvent::Change("xa  by".to_string())));
    let out = t.handle_key_down("v", ctrl(), None);
    assert_eq!(out.event, None);
    assert_eq!(t.text(), "xa  by");
}

#[test]
fn arrows_move_by_grapheme() {
    let mut t = input_with("e\u{301}x");
    assert_eq!(t.cursor_offset(), 4);
    t.handle_key_down("left", plain(), None);
    assert_eq!(t.selected_range, 3..3);
    t.handle_key_down("left", plain(), None);
    assert_eq!(t.selected_range, 0..0);
    t.handle_key_down("left", plain(), None);
    assert_eq!(t.selected_range, 0..0);
    t.handle_key_down("right", plain(), None);
    assert_eq!(t.selected_range, 3..3);
    t.handle_key_down("end", plain(), None);
    assert_eq!(t.selected_range, 4..4);
    t.handle_key_down("home", plain(), None);
    assert_eq!(t.selected_range, 0..0);
}

#[test]
fn shift_arrows_extend_the_selection() {
    let mut t = input_with("e\u{301}x");
    t.handle_key_down("left", shift(), None);
    assert_eq!(t.selected_range, 3..4);
    assert!(t.selection_reversed);
    assert_eq!(t.cursor_offset(), 3);
    t.handle_key_down("left", shift(), None);
    assert_eq!(t.selected_range, 0..4);
    t.handle_key_down("right", plain(), None);
    assert_eq!(t.selected_range, 4..4);
    t.handle_key_down("home", shift(), None);
    assert_eq!(t.selected_range, 0..4);
    assert!(t.selection_reversed);
    t.handle_key_down("left", plain(), None);
    assert_eq!(t.selected_range, 0..0);
    t.handle_key_down("end", shift(), None);
    assert_eq!(t.selected_range, 0..4);
    assert!(!t.selection_reversed);
}

#[test]
fn backspace_and_delete_remove_graphemes() {
    let mut t = input_with("e\u{301}x");
    let out = t.handle_key_down("backspace", plain(), None);
    assert_eq!(t.text(), "e\u{301}");
    assert_eq!(out.event, Some(TextInputEvent::Change("e\u{301}".to_string())));
    t.handle_key_down("backspace", plain(), None);
    assert_eq!(t.text(), "");
    t.handle_key_down("backspace", plain(), None);
    assert_eq!(t.text(), "");
    let mut t = input_with("ab");
    t.handle_key_down("home", plain(), None);
    t.handle_key_down("delete", plain(), None);
    assert_eq!(t.text(), "b");
    assert_eq!(t.selected_range, 0..0);
}

#[test]
fn enter_escape_and_other_keys() {
    let mut t = input_with("go");
    let out = t.handle_key_down("enter", plain(), None);
    assert_eq!(out.event, Some(TextInputEvent::Submit("go".to_string())));
    let out = t.handle_key_down("escape", plain(), None);
    assert_eq!(out.event, Some(TextInputEvent::Escape));
    let out = t.handle_key_down("z", ctrl(), None);
    assert_eq!(out.event, None);
    assert_eq!(out.copied, None);
    let out = t.handle_key_down("q", plain(), None);
    assert_eq!(out.event, None);
    assert_eq!(t.text(), "go");
    assert_eq!(t.selected_range, 2..2);
}

#[test]
fn marked_text_is_replaced_next() {
    let mut t = input_with("ab");
    t.move_to(1);
    let ev = t.replace_and_mark_text_in_range(None, "xyz", Some(1..2));
    assert_eq!(ev, TextInputEvent::Change("axyzb".to_string()));
    assert_eq!(t.marked_range, Some(1..4));
    assert_eq!(t.selected_range, 2..3);
    assert_eq!(t.marked_text_range(), Some(1..4));
    let ev = t.replace_text_in_range(None, "Q");
    assert_eq!(ev, TextInputEvent::Change("aQb".to_string()));
    assert_eq!(t.selected_range, 2..2);
    assert_eq!(t.marked_range, None);
    assert_eq!(t.marked_text_range(), None);
}

#[test]
fn marking_past_the_text_puts_the_selection_at_its_end() {
    let mut t = input_with("");
    t.replace_and_mark_text_in_range(None, "\u{1F600}", Some(1..9));
    assert_eq!(t.selected_range, 4..4);
    assert_eq!(t.marked_range, Some(0..4));
    t.unmark_text();
    assert_eq!(t.marked_range, None);
}

#[test]
fn utf16_ranges_of_the_content() {
    let mut t = input_with("a\u{1F600}b");
    let mut actual = None;
    let text = t.text_for_range(1..3, &mut actual);
    assert_eq!(text, Some("\u{1F600}".to_string()));
    assert_eq!(actual, Some(1..3));
    let text = t.text_for_range(2..3, &mut actual);
    assert_eq!(text, Some(String::new()));
    assert_eq!(actual, Some(3..3));
    assert_eq!(t.range_from_utf16(&(0..4)), 0..6);
    assert_eq!(t.range_to_utf16(&(1..5)), 1..3);
    t.move_to(5);
    t.select_to(1);
    let sel = t.selected_text_range().unwrap();
    assert_eq!(sel.range, 1..3);
    assert!(sel.reversed);
    let ev = t.replace_text_in_range(Some(3..4), "c");
    assert_eq!(ev, TextInputEvent::Change("a\u{1F600}c".to_string()));
}

#[test]
fn secret_inputs_measure_bullets() {
    let mut t = input_with("h\u{e9}llo");
    assert_eq!(t.content_offset_to_shaped_offset(3), 3);
    t.set_secret(true);
    assert_eq!(t.content_offset_to_shaped_offset(3), 6);
    assert_eq!(t.shaped_offset_to_content_offset(6), 3);
    t.set_placeholder("pw".to_string());
    assert_eq!(t.placeholder, "pw");
}
