use qtrs_widgets::geometry::{Point, Rect, Size};
use qtrs_widgets::key_sequence::{KeyCombination, KeySequence};
use qtrs_widgets::key_sequence_edit::{EditOutcome, KeySequenceEdit};

const CTRL: u32 = 0x0400_0000;
const KEY_A: u32 = 0x41;
const KEY_B: u32 = 0x42;
const KEY_CONTROL: u32 = 0x0100_0021;
const KEY_RETURN: u32 = 0x0100_0004;

fn quiet() -> EditOutcome {
    EditOutcome { sequence_changed: false, editing_finished: false, start_release_timer: false }
}

fn finished() -> EditOutcome {
    EditOutcome { sequence_changed: true, editing_finished: true, start_release_timer: false }
}

#[test]
fn fresh_editor() {
    let e = KeySequenceEdit::new();
    assert!(e.key_sequence().is_empty());
    assert_eq!(e.text(), "");
    assert_eq!(e.placeholder_text(), "Press shortcut");
    assert_eq!(e.maximum_sequence_length(), 4);
    assert!(!e.is_recording());
    assert!(!e.is_clear_button_enabled());
    assert_eq!(e.geometry(), Rect::new(0, 0, 160, 28));
    assert!(e.finishing_key_combinations().is_empty());
}

#[test]
fn records_a_chord_and_finishes_on_timer() {
    let mut e = KeySequenceEdit::new();
    assert_eq!(e.key_press_event(KEY_A, CTRL), quiet());
    assert!(e.is_recording());
    assert_eq!(e.key_sequence().count(), 1);
    assert_eq!(e.text(), "Ctrl+A, ...");
    let out = e.key_release_event(KEY_A, CTRL);
    assert!(out.start_release_timer);
    assert!(e.is_release_timer_active());
    assert_eq!(e.timer_event(), finished());
    assert!(!e.is_recording());
    assert!(!e.is_release_timer_active());
    assert_eq!(e.text(), "Ctrl+A");
    assert_eq!(e.key_sequence().to_portable_string(), "Ctrl+A");
    assert_eq!(e.timer_event(), quiet());
}

#[test]
fn two_chords_then_full_sequence_finishes_on_release() {
    let mut e = KeySequenceEdit::new();
    e.set_maximum_sequence_length(2);
    e.key_press_event(KEY_A, CTRL);
    e.key_press_event(KEY_B, CTRL);
    assert_eq!(e.text(), "Ctrl+A, Ctrl+B");
    // A third chord finds no room.
    e.key_press_event(0x43, CTRL);
    assert_eq!(e.key_sequence().count(), 2);
    assert_eq!(e.key_release_event(KEY_A, CTRL), finished());
    assert_eq!(e.text(), "Ctrl+A, Ctrl+B");
}

#[test]
fn releasing_another_key_does_nothing() {
    let mut e = KeySequenceEdit::new();
    e.key_press_event(KEY_A, 0);
    assert_eq!(e.key_release_event(KEY_B, 0), quiet());
    assert!(e.is_recording());
}

#[test]
fn modifier_keys_alone_are_not_recorded() {
    let mut e = KeySequenceEdit::new();
    e.key_press_event(KEY_CONTROL, CTRL);
    assert!(e.is_recording());
    assert!(e.key_sequence().is_empty());
    assert_eq!(e.text(), "");
}

#[test]
fn new_session_clears_previous_sequence() {
    let mut e = KeySequenceEdit::new();
    e.key_press_event(KEY_A, CTRL);
    e.finish_editing();
    let out = e.key_press_event(KEY_B, 0);
    assert!(out.sequence_changed);
    assert_eq!(e.text(), "B, ...");
    assert_eq!(e.key_sequence().count(), 1);
}

#[test]
fn finishing_combination_ends_editing() {
    let mut e = KeySequenceEdit::new();
    e.set_finishing_key_combinations(vec![KeyCombination::new(KEY_RETURN, 0)]);
    e.key_press_event(KEY_A, CTRL);
    assert_eq!(e.key_press_event(KEY_RETURN, 0), finished());
    assert_eq!(e.key_sequence().count(), 1);
    assert!(!e.is_recording());
}

#[test]
fn set_key_sequence_truncates_and_reports_change() {
    let mut e = KeySequenceEdit::new();
    e.set_maximum_sequence_length(2);
    let s = KeySequence::from_portable_string("Ctrl+X, Ctrl+C, Ctrl+V");
    assert!(e.set_key_sequence(&s));
    assert_eq!(e.text(), "Ctrl+X, Ctrl+C");
    assert!(!e.set_key_sequence(&s));
    e.set_maximum_sequence_length(1);
    assert_eq!(e.text(), "Ctrl+X");
    e.set_maximum_sequence_length(0);
    assert_eq!(e.maximum_sequence_length(), 1);
    e.set_maximum_sequence_length(9);
    assert_eq!(e.maximum_sequence_length(), 4);
    assert!(e.clear());
    assert!(!e.clear());
    let w = KeySequenceEdit::with_key_sequence(&s);
    assert_eq!(w.text(), "Ctrl+X, Ctrl+C, Ctrl+V");
}

#[test]
fn clear_button_clears() {
    let mut e = KeySequenceEdit::new();
    e.set_key_sequence(&KeySequence::from_portable_string("Ctrl+Q"));
    assert!(!e.mouse_press_event(Point::new(150, 10), 1));
    e.set_clear_button_enabled(true);
    assert!(!e.mouse_press_event(Point::new(100, 10), 1));
    assert!(!e.mouse_press_event(Point::new(150, 10), 2));
    assert!(e.mouse_press_event(Point::new(150, 10), 1));
    assert!(e.key_sequence().is_empty());
    assert!(!e.mouse_press_event(Point::new(150, 10), 1));
}

#[test]
fn disabled_editor_ignores_keys() {
    let mut e = KeySequenceEdit::new();
    e.set_enabled(false);
    assert_eq!(e.key_press_event(KEY_A, CTRL), quiet());
    assert!(!e.is_recording());
}

#[test]
fn focus_loss_finishes_unless_to_popup() {
    let mut e = KeySequenceEdit::new();
    e.key_press_event(KEY_A, CTRL);
    assert_eq!(e.focus_out_event(true), quiet());
    assert!(e.is_recording());
    assert_eq!(e.focus_out_event(false), finished());
    assert!(!e.is_recording());
}

#[test]
fn size_hint_from_sample_width() {
    let mut e = KeySequenceEdit::new();
    assert_eq!(e.size_hint(150, 14), Size::new(166, 28));
    assert_eq!(e.size_hint(150, 20), Size::new(166, 32));
    e.set_placeholder_text("Type");
    assert_eq!(e.placeholder_text(), "Type");
    e.set_has_focus(true);
    assert!(e.has_focus());
}
