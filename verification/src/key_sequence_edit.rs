//! Recording a shortcut from key presses (`QKeySequenceEdit`).
//!
//! A recording session starts with the first key pressed and records one
//! chord per non-modifier key, up to the maximum length. Releasing the first
//! key starts a one-second release timer, run by the caller, whose expiry
//! ([`KeySequenceEdit::timer_event`]) finishes editing; so do a finishing
//! combination, the last chord's release and focus leaving for anything but
//! a popup. Each operation reports the signals it emits in an [`EditOutcome`].

use vstd::prelude::*;

use crate::geometry::{Point, Rect, Size};
use crate::key_sequence::key_modifier;
use crate::key_sequence::qt_key;
use crate::key_sequence::{
    KeyCombination, KeySequence, SequenceMatch, at_most_four, join_chords, non_empty_keys,
    normalize_key, normalize_modifiers, spec_normalize_key, spec_normalize_modifiers,
};
use crate::text::{chars_of, push_str_chars, string_of};

verus! {

/// Width of the clear button at the right edge.
pub const CLEAR_BUTTON_WIDTH: i32 = 18;

/// What an operation of the editor emits, and whether the caller must
/// (re)start the one-second release timer.
#[derive(Debug, Clone, Copy, PartialEq, Eq, Structural)]
pub struct EditOutcome {
    /// `keySequenceChanged` was emitted with the current sequence.
    pub sequence_changed: bool,
    /// `editingFinished` was emitted.
    pub editing_finished: bool,
    /// The release timer is to be started anew.
    pub start_release_timer: bool,
}

/// Nothing emitted, no timer started.
pub open spec fn quiet() -> EditOutcome {
    EditOutcome { sequence_changed: false, editing_finished: false, start_release_timer: false }
}

/// A key sequence editor as plain values.
pub struct KeySequenceEditView {
    pub key_sequence: Seq<KeyCombination>,
    /// Chords recorded in the current session.
    pub recorded: Seq<KeyCombination>,
    /// The first key pressed in the current session; none when idle.
    pub prev_key: Option<u32>,
    pub maximum_sequence_length: int,
    pub finishing: Seq<KeyCombination>,
    pub clear_button_enabled: bool,
    pub release_timer_active: bool,
    pub text: Seq<char>,
    pub placeholder: Seq<char>,
    pub geometry: Rect,
    pub enabled: bool,
    pub has_focus: bool,
}

/// The maximum length stays between one and four chords, and the sequence
/// never holds more chords than that.
pub open spec fn edit_wf(s: KeySequenceEditView) -> bool {
    &&& 1 <= s.maximum_sequence_length <= 4
    &&& s.key_sequence.len() <= s.maximum_sequence_length
}

/// Dropping empty combinations never lengthens a list.
pub proof fn lemma_non_empty_len(s: Seq<KeyCombination>)
    ensures
        non_empty_keys(s).len() <= s.len(),
    decreases s.len(),
{
    if s.len() > 0 {
        lemma_non_empty_len(s.drop_last());
    }
}

/// The combination of a raw key event, as [`KeyCombination::from_key_event`] builds it.
pub open spec fn key_event_combination(key: u32, modifiers: u32) -> KeyCombination {
    let (qt, keypad) = spec_normalize_key(key, modifiers);
    let mods = spec_normalize_modifiers(modifiers);
    KeyCombination::spec_new(
        qt,
        if keypad {
            mods | key_modifier::KEYPAD
        } else {
            mods
        },
    )
}

/// Keys that only modify others are not recorded on their own.
pub open spec fn is_modifier_key(key: u32) -> bool {
    key == qt_key::CONTROL || key == qt_key::SHIFT || key == qt_key::META || key == qt_key::ALT
        || key == qt_key::UNKNOWN
}

/// The end of a session: the timer stops, nothing is being recorded, and the
/// text shows the sequence.
pub open spec fn spec_reset(s: KeySequenceEditView) -> KeySequenceEditView {
    KeySequenceEditView {
        release_timer_active: false,
        prev_key: None,
        text: join_chords(s.key_sequence),
        ..s
    }
}

/// `keys` cut to the first `max` entries, then made a sequence.
pub open spec fn truncated_to(keys: Seq<KeyCombination>, max: int) -> Seq<KeyCombination> {
    let n = if keys.len() < max {
        keys.len() as int
    } else {
        max
    };
    at_most_four(non_empty_keys(keys.subrange(0, n)))
}

/// `setKeySequence`: the session ends; the sequence, cut to the maximum
/// length, replaces the old one and is reported when it differs.
pub open spec fn spec_set_sequence(s: KeySequenceEditView, keys: Seq<KeyCombination>) -> (KeySequenceEditView, bool) {
    let r = spec_reset(s);
    let t = truncated_to(keys, s.maximum_sequence_length);
    if t == r.key_sequence {
        (r, false)
    } else {
        (KeySequenceEditView { key_sequence: t, recorded: t, text: join_chords(t), ..r }, true)
    }
}

/// Editing finishes: the session ends and both signals are emitted.
pub open spec fn spec_finish(s: KeySequenceEditView) -> (KeySequenceEditView, EditOutcome) {
    (spec_reset(s), EditOutcome { sequence_changed: true, editing_finished: true, start_release_timer: false })
}

/// A key press while enabled: a finishing combination finishes editing; the
/// first press of a session clears the sequence; a non-modifier key is
/// recorded (without its keypad bit) while there is room, and the text
/// shows the chords, followed by `", ..."` while more may come.
pub open spec fn spec_record_press(s: KeySequenceEditView, key: u32, modifiers: u32) -> (KeySequenceEditView, EditOutcome) {
    let combo = key_event_combination(key, modifiers);
    if s.finishing.contains(combo) {
        spec_finish(s)
    } else {
        let (s1, changed) = if s.prev_key is None {
            let (c, ch) = spec_set_sequence(s, Seq::empty());
            (KeySequenceEditView { recorded: Seq::empty(), prev_key: Some(combo.key), ..c }, ch)
        } else {
            (s, false)
        };
        let out = EditOutcome { sequence_changed: changed, editing_finished: false, start_release_timer: false };
        if is_modifier_key(combo.key) || s1.recorded.len() >= s1.maximum_sequence_length {
            (s1, out)
        } else {
            let rec = s1.recorded.push(KeyCombination::spec_new(combo.key, combo.modifiers & !key_modifier::KEYPAD));
            let ks = at_most_four(non_empty_keys(rec));
            (
                KeySequenceEditView {
                    recorded: rec,
                    key_sequence: ks,
                    text: join_chords(ks) + (if rec.len() < s1.maximum_sequence_length {
                        ", ..."@
                    } else {
                        Seq::empty()
                    }),
                    ..s1
                },
                out,
            )
        }
    }
}

/// A key release while enabled: releasing the session's first key starts
/// the release timer while there is room for more chords, and finishes
/// editing once the sequence is full.
pub open spec fn spec_record_release(s: KeySequenceEditView, key: u32, modifiers: u32) -> (KeySequenceEditView, EditOutcome) {
    let released = spec_normalize_key(key, modifiers).0;
    if s.prev_key != Some(released) {
        (s, quiet())
    } else if s.recorded.len() < s.maximum_sequence_length {
        (
            KeySequenceEditView { release_timer_active: true, ..s },
            EditOutcome { sequence_changed: false, editing_finished: false, start_release_timer: true },
        )
    } else {
        spec_finish(s)
    }
}

/// Whether `pos` lies on the clear button at the right edge.
pub open spec fn on_clear_button(g: Rect, pos: Point) -> bool {
    g.width - CLEAR_BUTTON_WIDTH - 2 <= pos.x < g.width - 2 && 0 <= pos.y < g.height
}

/// A fresh editor: empty, maximum length four, no finishing combinations,
/// no clear button, idle, placeholder "Press shortcut", 160 by 28, enabled.
pub open spec fn fresh_edit() -> KeySequenceEditView {
    KeySequenceEditView {
        key_sequence: Seq::empty(),
        recorded: Seq::empty(),
        prev_key: None,
        maximum_sequence_length: 4,
        finishing: Seq::empty(),
        clear_button_enabled: false,
        release_timer_active: false,
        text: Seq::empty(),
        placeholder: "Press shortcut"@,
        geometry: Rect { x: 0, y: 0, width: 160, height: 28 },
        enabled: true,
        has_focus: false,
    }
}

/// A widget that records a key sequence from key presses.
pub struct KeySequenceEdit {
    key_sequence: KeySequence,
    recorded: Vec<KeyCombination>,
    prev_key: Option<u32>,
    maximum_sequence_length: usize,
    finishing: Vec<KeyCombination>,
    clear_button_enabled: bool,
    release_timer_active: bool,
    text: String,
    placeholder: String,
    geometry: Rect,
    enabled: bool,
    has_focus: bool,
}

impl View for KeySequenceEdit {
    type V = KeySequenceEditView;

    closed spec fn view(&self) -> KeySequenceEditView {
        KeySequenceEditView {
            key_sequence: self.key_sequence@,
            recorded: self.recorded@,
            prev_key: self.prev_key,
            maximum_sequence_length: self.maximum_sequence_length as int,
            finishing: self.finishing@,
            clear_button_enabled: self.clear_button_enabled,
            release_timer_active: self.release_timer_active,
            text: self.text@,
            placeholder: self.placeholder@,
            geometry: self.geometry,
            enabled: self.enabled,
            has_focus: self.has_focus,
        }
    }
}

/// A sequence is exactly matched by another only when they are equal.
proof fn lemma_exact_iff_equal(s: Seq<KeyCombination>, t: Seq<KeyCombination>)
    ensures
        (KeySequence::spec_matches(s, t) == SequenceMatch::ExactMatch) == (s == t),
{
    crate::key_sequence::lemma_matches_prefix(s, t);
    if s == t {
        crate::key_sequence::lemma_matches_reflexive(s);
    }
}

impl KeySequenceEdit {
    /// The editor's invariant.
    pub open spec fn wf(&self) -> bool {
        edit_wf(self@)
    }

    /// A fresh, empty editor.
    pub fn new() -> (r: Self)
        ensures
            r.wf(),
            r@ == fresh_edit(),
    {
        let r = KeySequenceEdit {
            key_sequence: KeySequence::new(),
            recorded: Vec::new(),
            prev_key: None,
            maximum_sequence_length: 4,
            finishing: Vec::new(),
            clear_button_enabled: false,
            release_timer_active: false,
            text: String::new(),
            placeholder: "Press shortcut".to_owned(),
            geometry: Rect { x: 0, y: 0, width: 160, height: 28 },
            enabled: true,
            has_focus: false,
        };
        assert(r@.key_sequence =~= Seq::<KeyCombination>::empty());
        assert(r@.text =~= Seq::<char>::empty());
        r
    }

    fn reset_state(&mut self)
        requires
            1 <= old(self)@.maximum_sequence_length <= 4,
        ensures
            final(self)@ == spec_reset(old(self)@),
    {
        self.release_timer_active = false;
        self.prev_key = None;
        self.text = self.key_sequence.to_portable_string();
    }

    fn copy_keys(keys: &[KeyCombination]) -> (r: Vec<KeyCombination>)
        ensures
            r@ == keys@,
    {
        let mut out: Vec<KeyCombination> = Vec::new();
        let mut i: usize = 0;
        while i < keys.len()
            invariant
                0 <= i <= keys@.len(),
                out@ == keys@.subrange(0, i as int),
            decreases keys@.len() - i,
        {
            out.push(keys[i]);
            i = i + 1;
            assert(out@ =~= keys@.subrange(0, i as int));
        }
        assert(keys@.subrange(0, i as int) =~= keys@);
        out
    }

    /// Replaces the sequence, cut to the maximum length; returns whether it
    /// changed (`keySequenceChanged`).
    pub fn set_key_sequence(&mut self, sequence: &KeySequence) -> (changed: bool)
        requires
            old(self).wf(),
        ensures
            final(self).wf(),
            (final(self)@, changed) == spec_set_sequence(old(self)@, sequence@),
    {
        self.replace_sequence(sequence)
    }

    fn replace_sequence(&mut self, sequence: &KeySequence) -> (changed: bool)
        requires
            1 <= old(self)@.maximum_sequence_length <= 4,
        ensures
            final(self).wf(),
            (final(self)@, changed) == spec_set_sequence(old(self)@, sequence@),
    {
        self.reset_state();
        let keys = sequence.keys();
        let n = if sequence.count() < self.maximum_sequence_length {
            sequence.count()
        } else {
            self.maximum_sequence_length
        };
        let truncated = KeySequence::from_keys(slice_prefix(keys, n));
        proof {
            lemma_exact_iff_equal(truncated@, self.key_sequence@);
            lemma_non_empty_len(keys@.subrange(0, n as int));
        }
        if truncated.matches(&self.key_sequence) == SequenceMatch::ExactMatch {
            return false;
        }
        self.recorded = Self::copy_keys(truncated.keys());
        self.text = truncated.to_portable_string();
        self.key_sequence = truncated;
        true
    }

    /// A pre-filled editor.
    pub fn with_key_sequence(sequence: &KeySequence) -> (r: Self)
        ensures
            r.wf(),
            r@ == spec_set_sequence(fresh_edit(), sequence@).0,
    {
        let mut e = Self::new();
        e.set_key_sequence(sequence);
        e
    }

    /// The recorded sequence.
    pub fn key_sequence(&self) -> (r: &KeySequence)
        ensures
            r@ == self@.key_sequence,
    {
        &self.key_sequence
    }

    /// Ends the session and emits both signals (`finishEditing`).
    pub fn finish_editing(&mut self) -> (out: EditOutcome)
        requires
            old(self).wf(),
        ensures
            final(self).wf(),
            (final(self)@, out) == spec_finish(old(self)@),
    {
        self.reset_state();
        EditOutcome { sequence_changed: true, editing_finished: true, start_release_timer: false }
    }

    pub fn maximum_sequence_length(&self) -> (r: usize)
        ensures
            r == self@.maximum_sequence_length,
    {
        self.maximum_sequence_length
    }

    /// Sets the maximum length, brought into 1..=4; a longer sequence is cut
    /// to it. Returns whether the sequence changed.
    pub fn set_maximum_sequence_length(&mut self, length: usize) -> (changed: bool)
        requires
            old(self).wf(),
        ensures
            final(self).wf(),
            ({
                let m = if length < 1 {
                    1
                } else if length > 4 {
                    4
                } else {
                    length as int
                };
                let s1 = KeySequenceEditView { maximum_sequence_length: m, ..old(self)@ };
                (final(self)@, changed) == if s1.key_sequence.len() > m {
                    spec_set_sequence(s1, at_most_four(non_empty_keys(s1.key_sequence.subrange(0, m))))
                } else {
                    (s1, false)
                }
            }),
    {
        self.maximum_sequence_length = if length < 1 {
            1
        } else if length > 4 {
            4
        } else {
            length
        };
        if self.key_sequence.count() > self.maximum_sequence_length {
            let truncated = KeySequence::from_keys(
                slice_prefix(self.key_sequence.keys(), self.maximum_sequence_length),
            );
            self.replace_sequence(&truncated)
        } else {
            false
        }
    }

    /// Combinations that finish editing instead of being recorded.
    pub fn finishing_key_combinations(&self) -> (r: &[KeyCombination])
        ensures
            r@ == self@.finishing,
    {
        self.finishing.as_slice()
    }

    pub fn set_finishing_key_combinations(&mut self, combinations: Vec<KeyCombination>)
        requires
            old(self).wf(),
        ensures
            final(self).wf(),
            final(self)@ == (KeySequenceEditView { finishing: combinations@, ..old(self)@ }),
    {
        self.finishing = combinations;
    }

    pub fn is_clear_button_enabled(&self) -> (r: bool)
        ensures
            r == self@.clear_button_enabled,
    {
        self.clear_button_enabled
    }

    pub fn set_clear_button_enabled(&mut self, enabled: bool)
        requires
            old(self).wf(),
        ensures
            final(self).wf(),
            final(self)@ == (KeySequenceEditView { clear_button_enabled: enabled, ..old(self)@ }),
    {
        self.clear_button_enabled = enabled;
    }

    /// Whether a recording session is in progress.
    pub fn is_recording(&self) -> (r: bool)
        ensures
            r == (self@.prev_key is Some),
    {
        self.prev_key.is_some()
    }

    /// Whether the release timer runs.
    pub fn is_release_timer_active(&self) -> (r: bool)
        ensures
            r == self@.release_timer_active,
    {
        self.release_timer_active
    }

    /// The text shown, such as `"Ctrl+A, ..."` while recording.
    pub fn text(&self) -> (r: &str)
        ensures
            r@ == self@.text,
    {
        self.text.as_str()
    }

    pub fn placeholder_text(&self) -> (r: &str)
        ensures
            r@ == self@.placeholder,
    {
        self.placeholder.as_str()
    }

    pub fn set_placeholder_text(&mut self, text: &str)
        requires
            old(self).wf(),
        ensures
            final(self).wf(),
            final(self)@ == (KeySequenceEditView { placeholder: text@, ..old(self)@ }),
    {
        self.placeholder = text.to_owned();
    }

    pub fn geometry(&self) -> (r: Rect)
        ensures
            r == self@.geometry,
    {
        self.geometry
    }

    pub fn set_geometry(&mut self, rect: Rect)
        requires
            old(self).wf(),
        ensures
            final(self).wf(),
            final(self)@ == (KeySequenceEditView { geometry: rect, ..old(self)@ }),
    {
        self.geometry = rect;
    }

    pub fn is_enabled(&self) -> (r: bool)
        ensures
            r == self@.enabled,
    {
        self.enabled
    }

    pub fn set_enabled(&mut self, enabled: bool)
        requires
            old(self).wf(),
        ensures
            final(self).wf(),
            final(self)@ == (KeySequenceEditView { enabled, ..old(self)@ }),
    {
        self.enabled = enabled;
    }

    pub fn has_focus(&self) -> (r: bool)
        ensures
            r == self@.has_focus,
    {
        self.has_focus
    }

    pub fn set_has_focus(&mut self, focus: bool)
        requires
            old(self).wf(),
        ensures
            final(self).wf(),
            final(self)@ == (KeySequenceEditView { has_focus: focus, ..old(self)@ }),
    {
        self.has_focus = focus;
    }

    /// The preferred size, from the measured width and height (whole pixels)
    /// of the sample text `"Ctrl+Shift+Alt+F12, ..."`: 16 wider, and 12
    /// higher but at least 28.
    pub fn size_hint(&self, sample_width: i32, text_height: i32) -> (r: Size)
        requires
            sample_width <= i32::MAX - 16,
            text_height <= i32::MAX - 12,
        ensures
            r == (Size {
                width: (sample_width + 16) as i32,
                height: (if text_height + 12 > 28 {
                    text_height + 12
                } else {
                    28
                }) as i32,
            }),
    {
        let h = text_height + 12;
        Size {
            width: sample_width + 16,
            height: if h > 28 {
                h
            } else {
                28
            },
        }
    }

    fn is_finishing(&self, combo: KeyCombination) -> (r: bool)
        ensures
            r == self@.finishing.contains(combo),
    {
        let mut i: usize = 0;
        while i < self.finishing.len()
            invariant
                0 <= i <= self.finishing@.len(),
                forall|j: int| 0 <= j < i ==> self.finishing@[j] != combo,
            decreases self.finishing@.len() - i,
        {
            if self.finishing[i] == combo {
                assert(self.finishing@[i as int] == combo);
                return true;
            }
            i = i + 1;
        }
        false
    }

    fn record_key_press(&mut self, key: u32, modifiers: u32) -> (out: EditOutcome)
        requires
            old(self).wf(),
        ensures
            final(self).wf(),
            (final(self)@, out) == spec_record_press(old(self)@, key, modifiers),
    {
        let combo = KeyCombination::from_key_event(key, modifiers);
        if self.is_finishing(combo) {
            return self.finish_editing();
        }
        let mut changed = false;
        if self.prev_key.is_none() {
            changed = self.clear();
            self.recorded = Vec::new();
            self.prev_key = Some(combo.key);
            assert(self@.recorded =~= Seq::<KeyCombination>::empty());
        }
        let out = EditOutcome { sequence_changed: changed, editing_finished: false, start_release_timer: false };
        let k = combo.key;
        if k == qt_key::CONTROL || k == qt_key::SHIFT || k == qt_key::META || k == qt_key::ALT || k
            == qt_key::UNKNOWN {
            return out;
        }
        if self.recorded.len() >= self.maximum_sequence_length {
            return out;
        }
        self.recorded.push(KeyCombination::new(combo.key, combo.modifiers & !key_modifier::KEYPAD));
        proof {
            lemma_non_empty_len(self.recorded@);
        }
        self.key_sequence = KeySequence::from_keys(self.recorded.as_slice());
        let mut chars = chars_of(self.key_sequence.to_portable_string().as_str());
        if self.recorded.len() < self.maximum_sequence_length {
            push_str_chars(&mut chars, ", ...");
        } else {
            assert(chars@ =~= chars@ + Seq::<char>::empty());
        }
        self.text = string_of(&chars);
        out
    }

    fn record_key_release(&mut self, key: u32, modifiers: u32) -> (out: EditOutcome)
        requires
            old(self).wf(),
        ensures
            final(self).wf(),
            (final(self)@, out) == spec_record_release(old(self)@, key, modifiers),
    {
        let (released, _) = normalize_key(key, modifiers);
        if self.prev_key != Some(released) {
            return EditOutcome { sequence_changed: false, editing_finished: false, start_release_timer: false };
        }
        if self.recorded.len() < self.maximum_sequence_length {
            self.release_timer_active = true;
            EditOutcome { sequence_changed: false, editing_finished: false, start_release_timer: true }
        } else {
            self.finish_editing()
        }
    }

    /// A key press: recorded while enabled.
    pub fn key_press_event(&mut self, key: u32, modifiers: u32) -> (out: EditOutcome)
        requires
            old(self).wf(),
        ensures
            final(self).wf(),
            (final(self)@, out) == (if old(self)@.enabled {
                spec_record_press(old(self)@, key, modifiers)
            } else {
                (old(self)@, quiet())
            }),
    {
        if self.enabled {
            self.record_key_press(key, modifiers)
        } else {
            EditOutcome { sequence_changed: false, editing_finished: false, start_release_timer: false }
        }
    }

    /// A key release: handled while enabled.
    pub fn key_release_event(&mut self, key: u32, modifiers: u32) -> (out: EditOutcome)
        requires
            old(self).wf(),
        ensures
            final(self).wf(),
            (final(self)@, out) == (if old(self)@.enabled {
                spec_record_release(old(self)@, key, modifiers)
            } else {
                (old(self)@, quiet())
            }),
    {
        if self.enabled {
            self.record_key_release(key, modifiers)
        } else {
            EditOutcome { sequence_changed: false, editing_finished: false, start_release_timer: false }
        }
    }

    /// The release timer fired: editing finishes if it was running.
    pub fn timer_event(&mut self) -> (out: EditOutcome)
        requires
            old(self).wf(),
        ensures
            final(self).wf(),
            (final(self)@, out) == (if old(self)@.release_timer_active {
                spec_finish(old(self)@)
            } else {
                (old(self)@, quiet())
            }),
    {
        if self.release_timer_active {
            self.finish_editing()
        } else {
            EditOutcome { sequence_changed: false, editing_finished: false, start_release_timer: false }
        }
    }

    /// Focus left: editing finishes unless it went to a popup.
    pub fn focus_out_event(&mut self, to_popup: bool) -> (out: EditOutcome)
        requires
            old(self).wf(),
        ensures
            final(self).wf(),
            (final(self)@, out) == (if !to_popup {
                spec_finish(old(self)@)
            } else {
                (old(self)@, quiet())
            }),
    {
        if !to_popup {
            self.finish_editing()
        } else {
            EditOutcome { sequence_changed: false, editing_finished: false, start_release_timer: false }
        }
    }

    /// A left press on the clear button of a non-empty sequence clears it;
    /// returns whether the sequence changed.
    pub fn mouse_press_event(&mut self, pos: Point, button: u32) -> (changed: bool)
        requires
            old(self).wf(),
            button == 1 && old(self)@.clear_button_enabled && old(self)@.key_sequence.len() > 0
                ==> old(self)@.geometry.width >= i32::MIN + CLEAR_BUTTON_WIDTH + 2,
        ensures
            final(self).wf(),
            (final(self)@, changed) == (if button == 1 && old(self)@.clear_button_enabled
                && old(self)@.key_sequence.len() > 0 && on_clear_button(old(self)@.geometry, pos) {
                spec_set_sequence(old(self)@, Seq::empty())
            } else {
                (old(self)@, false)
            }),
    {
        if button == 1 && self.clear_button_enabled && !self.key_sequence.is_empty() {
            let g = self.geometry;
            let area = Rect { x: g.width - CLEAR_BUTTON_WIDTH - 2, y: 0, width: CLEAR_BUTTON_WIDTH, height: g.height };
            if area.contains(pos) {
                return self.clear();
            }
        }
        false
    }

    /// Clears the sequence; returns whether it changed.
    pub fn clear(&mut self) -> (changed: bool)
        requires
            old(self).wf(),
        ensures
            final(self).wf(),
            (final(self)@, changed) == spec_set_sequence(old(self)@, Seq::empty()),
    {
        let empty = KeySequence::new();
        self.set_key_sequence(&empty)
    }
}

/// The first `n` entries of `keys`.
fn slice_prefix(keys: &[KeyCombination], n: usize) -> (r: &[KeyCombination])
    requires
        n <= keys@.len(),
    ensures
        r@ == keys@.subrange(0, n as int),
{
    vstd::slice::slice_subrange(keys, 0, n)
}

} // verus!
