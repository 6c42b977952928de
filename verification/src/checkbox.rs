//! Check boxes (`QCheckBox`): two-state and tri-state checking.

use vstd::prelude::*;

use crate::text::str_to_string;

verus! {

/// Tri-state check state (`Qt::CheckState`).
#[derive(Debug, Clone, Copy, PartialEq, Eq, Structural)]
pub enum CheckState {
    Unchecked,
    PartiallyChecked,
    Checked,
}

impl Default for CheckState {
    fn default() -> (r: CheckState)
        ensures
            r == CheckState::Unchecked,
    {
        CheckState::Unchecked
    }
}

/// The state a toggle moves to: a tri-state box cycles unchecked, partially
/// checked, checked; a two-state box unchecks a checked box and checks any other.
pub open spec fn next_check_state(state: CheckState, tristate: bool) -> CheckState {
    if tristate {
        match state {
            CheckState::Unchecked => CheckState::PartiallyChecked,
            CheckState::PartiallyChecked => CheckState::Checked,
            CheckState::Checked => CheckState::Unchecked,
        }
    } else {
        match state {
            CheckState::Checked => CheckState::Unchecked,
            _ => CheckState::Checked,
        }
    }
}

/// A check box as plain values.
pub struct CheckBoxView {
    pub text: Seq<char>,
    pub state: CheckState,
    pub tristate: bool,
    pub enabled: bool,
    pub width: i32,
    pub height: i32,
}

/// A check box with a text label.
pub struct CheckBox {
    text: String,
    state: CheckState,
    tristate: bool,
    enabled: bool,
    width: i32,
    height: i32,
}

impl View for CheckBox {
    type V = CheckBoxView;

    closed spec fn view(&self) -> CheckBoxView {
        CheckBoxView {
            text: self.text@,
            state: self.state,
            tristate: self.tristate,
            enabled: self.enabled,
            width: self.width,
            height: self.height,
        }
    }
}

/// The state after a toggle request: a disabled box does not change.
pub open spec fn toggled_view(v: CheckBoxView) -> CheckBoxView {
    if v.enabled {
        CheckBoxView { state: next_check_state(v.state, v.tristate), ..v }
    } else {
        v
    }
}

impl CheckBox {
    /// A new enabled, unchecked two-state box showing `text`, whose text
    /// measures `text_width` by `text_height`: the indicator and a gap take
    /// 28 units before the text, and the box is at least 20 high.
    pub fn new(text: &str, text_width: i32, text_height: i32) -> (r: CheckBox)
        requires
            text_width + 28 <= i32::MAX,
        ensures
            r@ == (CheckBoxView {
                text: text@,
                state: CheckState::Unchecked,
                tristate: false,
                enabled: true,
                width: (text_width + 28) as i32,
                height: if text_height < 20 {
                    20
                } else {
                    text_height
                },
            }),
    {
        CheckBox {
            text: str_to_string(text),
            state: CheckState::Unchecked,
            tristate: false,
            enabled: true,
            width: text_width + 28,
            height: if text_height < 20 {
                20
            } else {
                text_height
            },
        }
    }

    pub fn text(&self) -> (r: &str)
        ensures
            r@ == self@.text,
    {
        self.text.as_str()
    }

    pub fn set_text(&mut self, text: &str)
        ensures
            final(self)@ == (CheckBoxView { text: text@, ..old(self)@ }),
    {
        self.text = str_to_string(text);
    }

    /// Whether the box is fully checked.
    pub fn is_checked(&self) -> (r: bool)
        ensures
            r == (self@.state == CheckState::Checked),
    {
        match self.state {
            CheckState::Checked => true,
            _ => false,
        }
    }

    pub fn check_state(&self) -> (r: CheckState)
        ensures
            r == self@.state,
    {
        self.state
    }

    /// Sets the state; returns whether it changed (and the state-changed and
    /// toggled notifications are sent).
    pub fn set_check_state(&mut self, state: CheckState) -> (changed: bool)
        ensures
            changed == (state != old(self)@.state),
            final(self)@ == (CheckBoxView { state, ..old(self)@ }),
    {
        if self.state != state {
            self.state = state;
            true
        } else {
            false
        }
    }

    /// Checks or unchecks the box; returns whether the state changed.
    pub fn set_checked(&mut self, checked: bool) -> (changed: bool)
        ensures
            ({
                let s = if checked {
                    CheckState::Checked
                } else {
                    CheckState::Unchecked
                };
                &&& changed == (s != old(self)@.state)
                &&& final(self)@ == (CheckBoxView { state: s, ..old(self)@ })
            }),
    {
        let s = if checked {
            CheckState::Checked
        } else {
            CheckState::Unchecked
        };
        self.set_check_state(s)
    }

    pub fn is_tristate(&self) -> (r: bool)
        ensures
            r == self@.tristate,
    {
        self.tristate
    }

    pub fn set_tristate(&mut self, tristate: bool)
        ensures
            final(self)@ == (CheckBoxView { tristate, ..old(self)@ }),
    {
        self.tristate = tristate;
    }

    pub fn is_enabled(&self) -> (r: bool)
        ensures
            r == self@.enabled,
    {
        self.enabled
    }

    pub fn set_enabled(&mut self, enabled: bool)
        ensures
            final(self)@ == (CheckBoxView { enabled, ..old(self)@ }),
    {
        self.enabled = enabled;
    }

    /// Moves an enabled box to its next state ([`next_check_state`]); returns
    /// whether the state changed.
    pub fn toggle(&mut self) -> (changed: bool)
        ensures
            final(self)@ == toggled_view(old(self)@),
            changed == (final(self)@.state != old(self)@.state),
    {
        if !self.enabled {
            return false;
        }
        let next = if self.tristate {
            match self.state {
                CheckState::Unchecked => CheckState::PartiallyChecked,
                CheckState::PartiallyChecked => CheckState::Checked,
                CheckState::Checked => CheckState::Unchecked,
            }
        } else {
            match self.state {
                CheckState::Checked => CheckState::Unchecked,
                _ => CheckState::Checked,
            }
        };
        self.set_check_state(next)
    }

    /// A mouse button goes down: the left button toggles the box. Returns
    /// whether the event was handled.
    pub fn mouse_press_event(&mut self, button: u32) -> (handled: bool)
        ensures
            handled == (button == 1),
            final(self)@ == if button == 1 {
                toggled_view(old(self)@)
            } else {
                old(self)@
            },
    {
        if button == 1 {
            self.toggle();
            true
        } else {
            false
        }
    }

    /// A key goes down: Space toggles the box. Returns whether the event was handled.
    pub fn key_press_event(&mut self, key: u32) -> (handled: bool)
        ensures
            handled == (key == 0x20),
            final(self)@ == if key == 0x20 {
                toggled_view(old(self)@)
            } else {
                old(self)@
            },
    {
        if key == 0x20 {
            self.toggle();
            true
        } else {
            false
        }
    }
}

/// Toggling an enabled tri-state box three times brings it back to where it
/// was, passing through all three states.
pub proof fn lemma_tristate_cycle(v: CheckBoxView)
    requires
        v.enabled,
        v.tristate,
    ensures
        toggled_view(toggled_view(toggled_view(v))) == v,
        toggled_view(v).state != v.state,
        toggled_view(toggled_view(v)).state != v.state,
        toggled_view(toggled_view(v)).state != toggled_view(v).state,
{
}

/// Toggling an enabled two-state box twice brings a checked or unchecked box
/// back to where it was; a partially checked one becomes checked at once.
pub proof fn lemma_two_state_toggle(v: CheckBoxView)
    requires
        v.enabled,
        !v.tristate,
    ensures
        v.state != CheckState::PartiallyChecked ==> toggled_view(toggled_view(v)) == v,
        v.state == CheckState::PartiallyChecked ==> toggled_view(v).state == CheckState::Checked,
        toggled_view(v).state != CheckState::PartiallyChecked,
{
}

/// A disabled box ignores toggle requests.
pub proof fn lemma_disabled_ignores_toggle(v: CheckBoxView)
    requires
        !v.enabled,
    ensures
        toggled_view(v) == v,
{
}

} // verus!
