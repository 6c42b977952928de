use qtrs_widgets::line_edit::{EchoMode, LineEdit};

const KEY_LEFT: u32 = 0x0100_0012;
const KEY_RIGHT: u32 = 0x0100_0014;
const KEY_HOME: u32 = 0x0100_0010;
const KEY_END: u32 = 0x0100_0011;
const KEY_BACKSPACE: u32 = 0x0100_0003;
const KEY_DELETE: u32 = 0x0100_0007;
const KEY_RETURN: u32 = 0x0100_0004;
const SHIFT: u32 = 0x0200_0000;
const CTRL: u32 = 0x0400_0000;

#[test]
fn line_edit_defaults_and_text() {
    let mut e = LineEdit::new();
    assert_eq!(e.text(), "");
    assert_eq!(e.max_length(), 32767);
    assert_eq!(e.echo_mode(), EchoMode::Normal);
    assert!(!e.is_read_only());
    e.set_text("hello");
    assert_eq!(e.cursor_position(), 5);
    e.set_cursor_position(2);
    assert_eq!(e.cursor_position(), 2);
    e.set_cursor_position(99);
    assert_eq!(e.cursor_position(), 5);
    let w = LineEdit::with_text("abc");
    assert_eq!(w.text(), "abc");
    assert_eq!(w.cursor_position(), 3);
}

#[test]
fn line_edit_typing_and_editing_keys() {
    let mut e = LineEdit::new();
    for k in [0x48u32, 0x49] {
        e.key_press_event(k, 0, "");
    }
    assert_eq!(e.text(), "HI");
    e.key_press_event(KEY_LEFT, 0, "");
    e.key_press_event(0x20, 0, "");
    assert_eq!(e.text(), "H I");
    e.key_press_event(KEY_BACKSPACE, 0, "");
    assert_eq!(e.text(), "HI");
    assert_eq!(e.cursor_position(), 1);
    e.key_press_event(KEY_DELETE, 0, "");
    assert_eq!(e.text(), "H");
    e.key_press_event(KEY_DELETE, 0, "");
    assert_eq!(e.text(), "H");
    e.key_press_event(KEY_HOME, 0, "");
    e.key_press_event(KEY_BACKSPACE, 0, "");
    assert_eq!(e.text(), "H");
    assert!(e.key_press_event(KEY_RETURN, 0, "").return_pressed);
}

#[test]
fn line_edit_shift_selection_and_replace() {
    let mut e = LineEdit::with_text("abcdef");
    e.key_press_event(KEY_LEFT, SHIFT, "");
    e.key_press_event(KEY_LEFT, SHIFT, "");
    assert!(e.has_selected_text());
    assert_eq!(e.selection_range(), Some((4, 6)));
    assert_eq!(e.selected_text(), "ef");
    e.key_press_event(0x58, 0, "");
    assert_eq!(e.text(), "abcdX");
    assert!(!e.has_selected_text());
    e.key_press_event(KEY_HOME, SHIFT, "");
    assert_eq!(e.selected_text(), "abcdX");
    e.key_press_event(KEY_END, 0, "");
    assert!(!e.has_selected_text());
    e.key_press_event(KEY_LEFT, 0, "");
    e.key_press_event(KEY_RIGHT, SHIFT, "");
    e.key_press_event(KEY_BACKSPACE, 0, "");
    assert_eq!(e.text(), "abcd");
}

#[test]
fn line_edit_clipboard_keys() {
    let mut e = LineEdit::with_text("copy me");
    let r = e.key_press_event(0x41, CTRL, "");
    assert!(r.to_clipboard.is_none());
    assert_eq!(e.selected_text(), "copy me");
    let r = e.key_press_event(0x43, CTRL, "");
    assert_eq!(r.to_clipboard, Some("copy me".to_string()));
    let r = e.key_press_event(0x58, CTRL, "");
    assert_eq!(r.to_clipboard, Some("copy me".to_string()));
    assert_eq!(e.text(), "");
    e.key_press_event(0x56, CTRL, "line\r\nbreak");
    assert_eq!(e.text(), "linebreak");
    assert_eq!(e.cursor_position(), 9);
}

#[test]
fn line_edit_password_does_not_copy() {
    let mut e = LineEdit::with_text("secret");
    e.set_echo_mode(EchoMode::Password);
    assert_eq!(e.display_text(), "\u{2022}".repeat(6));
    e.select_all();
    assert_eq!(e.copy(), None);
    e.set_echo_mode(EchoMode::NoEcho);
    assert_eq!(e.display_text(), "");
    e.set_echo_mode(EchoMode::Normal);
    assert_eq!(e.display_text(), "secret");
}

#[test]
fn line_edit_max_length_and_read_only() {
    let mut e = LineEdit::new();
    e.set_max_length(3);
    e.insert_text("abcd");
    assert_eq!(e.text(), "");
    e.insert_text("abc");
    assert_eq!(e.text(), "abc");
    e.key_press_event(0x44, 0, "");
    assert_eq!(e.text(), "abc");
    e.set_read_only(true);
    e.key_press_event(KEY_BACKSPACE, 0, "");
    assert_eq!(e.text(), "abc");
    assert_eq!(e.cut(), None);
    e.paste("z");
    assert_eq!(e.text(), "abc");
}

#[test]
fn line_edit_mouse_focus_and_input_method() {
    let mut e = LineEdit::with_text("abc");
    e.select_all();
    e.mouse_press_event(1, 1);
    assert_eq!(e.cursor_position(), 1);
    assert!(!e.has_selected_text());
    e.mouse_press_event(2, 3);
    assert_eq!(e.cursor_position(), 1);
    e.focus_in_event();
    assert!(e.is_cursor_visible());
    e.select_all();
    e.focus_out_event();
    assert!(!e.is_cursor_visible());
    assert!(!e.has_selected_text());
    e.input_method_event("", "pre", 1);
    assert_eq!(e.text(), "abc");
    e.input_method_event("\u{00e9}", "", 0);
    assert_eq!(e.text(), "abc\u{00e9}");
    e.clear();
    assert_eq!(e.text(), "");
}

#[test]
fn line_edit_disabled_ignores_keys() {
    let mut e = LineEdit::with_text("x");
    e.set_enabled(false);
    e.key_press_event(0x41, 0, "");
    e.mouse_press_event(1, 0);
    assert_eq!(e.text(), "x");
    assert_eq!(e.cursor_position(), 1);
}
