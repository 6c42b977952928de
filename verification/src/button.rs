//! Push buttons (`QPushButton`): the interaction state machine and activation.

use vstd::prelude::*;

use crate::accessibility::AccessibleAction;
use crate::action::{effectively_enabled, spec_trigger, ActionSet};
use crate::action_keys::stripped;
use crate::geometry::{Point, Rect};
use crate::text::str_to_string;

verus! {

/// Interaction state of a push button.
#[derive(Debug, Clone, Copy, PartialEq, Eq, Structural)]
pub enum ButtonState {
    Normal,
    Hovered,
    Pressed,
}

impl Default for ButtonState {
    fn default() -> (r: ButtonState)
        ensures
            r == ButtonState::Normal,
    {
        ButtonState::Normal
    }
}

/// Whether `key` presses a button: Space, Win32 Return, or Qt Return / Enter.
pub open spec fn is_activation_key(key: u32) -> bool {
    key == 0x20 || key == 0x0D || key == 0x0100_0004 || key == 0x0100_0005
}

/// The extent of a new button around a text measured `text_width` by
/// `text_height`: twelve units of padding on each side and seven above and
/// below, at least 80 by 30.
pub open spec fn button_extent(text_width: int, text_height: int) -> (int, int) {
    let w = text_width + 24;
    let h = text_height + 14;
    (if w < 80 {
        80
    } else {
        w
    }, if h < 30 {
        30
    } else {
        h
    })
}

/// A push button: its text, the action it shares, its interaction state and
/// the extent that decides whether a release activates it.
pub struct Button {
    text: String,
    state: ButtonState,
    enabled: bool,
    has_focus: bool,
    width: i32,
    height: i32,
    action: Option<usize>,
}

/// A push button as plain values.
pub struct ButtonView {
    pub text: Seq<char>,
    pub state: ButtonState,
    pub enabled: bool,
    pub has_focus: bool,
    pub width: i32,
    pub height: i32,
    pub action: Option<usize>,
}

impl View for Button {
    type V = ButtonView;

    closed spec fn view(&self) -> ButtonView {
        ButtonView {
            text: self.text@,
            state: self.state,
            enabled: self.enabled,
            has_focus: self.has_focus,
            width: self.width,
            height: self.height,
            action: self.action,
        }
    }
}

impl Button {
    /// A new enabled button showing `text`, whose text measures `text_width`
    /// by `text_height` in the button's font; it takes the extent
    /// [`button_extent`] gives.
    pub fn new(text: &str, text_width: i32, text_height: i32) -> (r: Button)
        requires
            text_width + 24 <= i32::MAX,
            text_height + 14 <= i32::MAX,
        ensures
            r@ == (ButtonView {
                text: text@,
                state: ButtonState::Normal,
                enabled: true,
                has_focus: false,
                width: button_extent(text_width as int, text_height as int).0 as i32,
                height: button_extent(text_width as int, text_height as int).1 as i32,
                action: None,
            }),
    {
        let w = text_width + 24;
        let h = text_height + 14;
        Button {
            text: str_to_string(text),
            state: ButtonState::Normal,
            enabled: true,
            has_focus: false,
            width: if w < 80 {
                80
            } else {
                w
            },
            height: if h < 30 {
                30
            } else {
                h
            },
            action: None,
        }
    }

    pub fn text(&self) -> (r: &str)
        ensures
            r@ == self@.text,
    {
        self.text.as_str()
    }

    pub fn set_text(&mut self, text: &str)
        ensures
            final(self)@ == (ButtonView { text: text@, ..old(self)@ }),
    {
        self.text = str_to_string(text);
    }

    pub fn state(&self) -> (r: ButtonState)
        ensures
            r == self@.state,
    {
        self.state
    }

    pub fn is_enabled(&self) -> (r: bool)
        ensures
            r == self@.enabled,
    {
        self.enabled
    }

    pub fn set_enabled(&mut self, enabled: bool)
        ensures
            final(self)@ == (ButtonView { enabled, ..old(self)@ }),
    {
        self.enabled = enabled;
    }

    pub fn has_focus(&self) -> (r: bool)
        ensures
            r == self@.has_focus,
    {
        self.has_focus
    }

    pub fn set_has_focus(&mut self, focus: bool)
        ensures
            final(self)@ == (ButtonView { has_focus: focus, ..old(self)@ }),
    {
        self.has_focus = focus;
    }

    /// The button's extent, at the origin.
    pub fn geometry(&self) -> (r: Rect)
        ensures
            r == (Rect { x: 0, y: 0, width: self@.width, height: self@.height }),
    {
        Rect::new(0, 0, self.width, self.height)
    }

    /// Resizes the button.
    pub fn set_size(&mut self, width: i32, height: i32)
        ensures
            final(self)@ == (ButtonView { width, height, ..old(self)@ }),
    {
        self.width = width;
        self.height = height;
    }

    /// The action the button shares, by index in its action set.
    pub fn action(&self) -> (r: Option<usize>)
        ensures
            r == self@.action,
    {
        self.action
    }

    /// Shares action `action` of `actions` with this button, taking over its
    /// text without mnemonic markers; `None` keeps the text.
    pub fn set_action(&mut self, action: Option<usize>, actions: &ActionSet)
        requires
            action matches Some(a) ==> a < actions@.actions.len(),
        ensures
            final(self)@ == (ButtonView {
                text: match action {
                    Some(a) => stripped(actions@.actions[a as int].text),
                    None => old(self)@.text,
                },
                action,
                ..old(self)@
            }),
    {
        if let Some(a) = action {
            self.text = actions.action(a).display_text();
        }
        self.action = action;
    }

    /// The pointer enters the button: an enabled, unpressed button is hovered.
    pub fn enter_event(&mut self)
        ensures
            final(self)@ == if old(self)@.enabled && old(self)@.state != ButtonState::Pressed {
                ButtonView { state: ButtonState::Hovered, ..old(self)@ }
            } else {
                old(self)@
            },
    {
        if self.enabled && self.state != ButtonState::Pressed {
            self.state = ButtonState::Hovered;
        }
    }

    /// The pointer leaves the button: an enabled button returns to normal.
    pub fn leave_event(&mut self)
        ensures
            final(self)@ == if old(self)@.enabled {
                ButtonView { state: ButtonState::Normal, ..old(self)@ }
            } else {
                old(self)@
            },
    {
        if self.enabled && self.state != ButtonState::Normal {
            self.state = ButtonState::Normal;
        }
    }

    /// A mouse button goes down: the left button presses an enabled button.
    pub fn mouse_press_event(&mut self, button: u32)
        ensures
            final(self)@ == if old(self)@.enabled && button == 1 {
                ButtonView { state: ButtonState::Pressed, ..old(self)@ }
            } else {
                old(self)@
            },
    {
        if self.enabled && button == 1 {
            self.state = ButtonState::Pressed;
        }
    }

    /// A mouse button goes up at `pos`: releasing the left button on a
    /// pressed, enabled button activates it when `pos` lies inside the button
    /// (which then stays pressed), and otherwise returns it to normal.
    /// Returns whether the button is to be activated.
    pub fn mouse_release_event(&mut self, pos: Point, button: u32) -> (activate: bool)
        ensures
            ({
                let o = old(self)@;
                let inside = (Rect { x: 0, y: 0, width: o.width, height: o.height }).spec_contains(pos);
                if o.enabled && button == 1 && o.state == ButtonState::Pressed {
                    &&& activate == inside
                    &&& final(self)@ == if inside {
                        o
                    } else {
                        ButtonView { state: ButtonState::Normal, ..o }
                    }
                } else {
                    !activate && final(self)@ == o
                }
            }),
    {
        if self.enabled && button == 1 && self.state == ButtonState::Pressed {
            let inside = Rect::new(0, 0, self.width, self.height).contains(pos);
            if !inside {
                self.state = ButtonState::Normal;
            }
            inside
        } else {
            false
        }
    }

    /// A key goes down: an activation key presses an enabled button.
    pub fn key_press_event(&mut self, key: u32)
        ensures
            final(self)@ == if old(self)@.enabled && is_activation_key(key) {
                ButtonView { state: ButtonState::Pressed, ..old(self)@ }
            } else {
                old(self)@
            },
    {
        if self.enabled && (key == 0x20 || key == 0x0D || key == 0x0100_0004 || key == 0x0100_0005) {
            self.state = ButtonState::Pressed;
        }
    }

    /// A key goes up: releasing an activation key on a pressed, enabled button
    /// activates it. Returns whether the button is to be activated.
    pub fn key_release_event(&self, key: u32) -> (activate: bool)
        ensures
            activate == (self@.enabled && is_activation_key(key) && self@.state == ButtonState::Pressed),
    {
        self.enabled && (key == 0x20 || key == 0x0D || key == 0x0100_0004 || key == 0x0100_0005)
            && self.state == ButtonState::Pressed
    }

    /// Assistive technology asks for `action`: `Invoke` activates an enabled
    /// button and `Focus` focuses it. Returns whether the request was handled
    /// and whether the button is to be activated.
    pub fn perform_accessible_action(&mut self, action: AccessibleAction) -> (r: (bool, bool))
        ensures
            r == (if old(self)@.enabled && (action == AccessibleAction::Invoke || action
                == AccessibleAction::Focus) {
                (true, action == AccessibleAction::Invoke)
            } else {
                (false, false)
            }),
            final(self)@ == if old(self)@.enabled && action == AccessibleAction::Focus {
                ButtonView { has_focus: true, ..old(self)@ }
            } else {
                old(self)@
            },
    {
        match action {
            AccessibleAction::Invoke => {
                if self.enabled {
                    (true, true)
                } else {
                    (false, false)
                }
            },
            AccessibleAction::Focus => {
                if self.enabled {
                    self.has_focus = true;
                    (true, false)
                } else {
                    (false, false)
                }
            },
            _ => (false, false),
        }
    }

    /// Activates the button: its action, if any, is triggered unless it is
    /// disabled, in which case nothing happens. Returns whether the `clicked`
    /// notification is sent.
    pub fn activate(&self, actions: &mut ActionSet) -> (clicked: bool)
        requires
            old(actions).wf(),
            self@.action matches Some(a) ==> a < old(actions)@.actions.len(),
        ensures
            final(actions).wf(),
            match self@.action {
                Some(a) => if effectively_enabled(old(actions)@, a as int) {
                    clicked && final(actions)@ == spec_trigger(old(actions)@, a as int)
                } else {
                    !clicked && final(actions)@ == old(actions)@
                },
                None => clicked && final(actions)@ == old(actions)@,
            },
    {
        if let Some(a) = self.action {
            if !actions.is_enabled(a) {
                return false;
            }
            let _ = actions.trigger(a);
        }
        true
    }
}

} // verus!
