//! Command link buttons (`QCommandLinkButton`): a title with an optional
//! description, pressed by the left button or by Space and Enter, clicked on
//! release.

use vstd::prelude::*;

use crate::geometry::{Point, Rect, Size};
use crate::input_keys::{KEY_SPACE, is_enter, spec_is_enter};

verus! {

/// Interaction state of a command link button.
#[derive(Debug, Clone, Copy, PartialEq, Eq, Structural)]
pub enum CommandLinkState {
    Normal,
    Hovered,
    Pressed,
}

impl Default for CommandLinkState {
    fn default() -> (r: CommandLinkState)
        ensures
            r == CommandLinkState::Normal,
    {
        CommandLinkState::Normal
    }
}

/// A command link button as plain values.
pub struct CommandLinkView {
    pub title: Seq<char>,
    pub description: Seq<char>,
    pub state: CommandLinkState,
    pub geometry: Rect,
    pub has_focus: bool,
    pub enabled: bool,
}

/// Whether `pos` lies on the button (its own coordinates, origin top left).
pub open spec fn on_button(v: CommandLinkView, pos: Point) -> bool {
    0 <= pos.x < v.geometry.width && 0 <= pos.y < v.geometry.height
}

/// A left press on the button presses it and gives it focus.
pub open spec fn spec_link_press(v: CommandLinkView, pos: Point, button: u32) -> CommandLinkView {
    if button == 1 && on_button(v, pos) {
        CommandLinkView { state: CommandLinkState::Pressed, has_focus: true, ..v }
    } else {
        v
    }
}

/// Releasing the left button of a pressed button: hovered and clicked when
/// released on the button, else back to normal without a click.
pub open spec fn spec_link_release(v: CommandLinkView, pos: Point, button: u32) -> (CommandLinkView, bool) {
    if button == 1 && v.state == CommandLinkState::Pressed {
        if on_button(v, pos) {
            (CommandLinkView { state: CommandLinkState::Hovered, ..v }, true)
        } else {
            (CommandLinkView { state: CommandLinkState::Normal, ..v }, false)
        }
    } else {
        (v, false)
    }
}

/// Space or Enter.
pub open spec fn is_activation_key(key: u32) -> bool {
    key == KEY_SPACE || spec_is_enter(key)
}

/// The width and height a command link asks for, from the measured text:
/// the wider line plus 40 (at least 160); 44 high for a title alone, else
/// both line heights plus 24 (at least 50).
pub open spec fn link_size_hint(
    description_empty: bool,
    title_width: int,
    title_height: int,
    desc_width: int,
    desc_height: int,
) -> Size {
    let dw = if description_empty {
        0
    } else {
        desc_width
    };
    let content_w = (if title_width > dw {
        title_width
    } else {
        dw
    }) + 40;
    let content_h = if description_empty {
        44
    } else {
        title_height + desc_height + 24
    };
    Size {
        width: (if content_w > 160 {
            content_w
        } else {
            160
        }) as i32,
        height: (if content_h > 50 {
            content_h
        } else {
            50
        }) as i32,
    }
}

/// A command link button.
pub struct CommandLinkButton {
    title: String,
    description: String,
    state: CommandLinkState,
    geometry: Rect,
    has_focus: bool,
    enabled: bool,
}

impl View for CommandLinkButton {
    type V = CommandLinkView;

    closed spec fn view(&self) -> CommandLinkView {
        CommandLinkView {
            title: self.title@,
            description: self.description@,
            state: self.state,
            geometry: self.geometry,
            has_focus: self.has_focus,
            enabled: self.enabled,
        }
    }
}

impl CommandLinkButton {
    /// A button titled `title` without a description.
    pub fn new(title: &str) -> (r: Self)
        ensures
            r@ == (CommandLinkView {
                title: title@,
                description: Seq::empty(),
                state: CommandLinkState::Normal,
                geometry: Rect { x: 0, y: 0, width: 240, height: 56 },
                has_focus: false,
                enabled: true,
            }),
    {
        proof {
            reveal_strlit("");
        }
        assert(""@ =~= Seq::<char>::empty());
        Self::with_description(title, "")
    }

    /// A button titled `title` with `description` below, 240 by 56, normal,
    /// enabled and without focus.
    pub fn with_description(title: &str, description: &str) -> (r: Self)
        ensures
            r@ == (CommandLinkView {
                title: title@,
                description: description@,
                state: CommandLinkState::Normal,
                geometry: Rect { x: 0, y: 0, width: 240, height: 56 },
                has_focus: false,
                enabled: true,
            }),
    {
        CommandLinkButton {
            title: title.to_owned(),
            description: description.to_owned(),
            state: CommandLinkState::Normal,
            geometry: Rect { x: 0, y: 0, width: 240, height: 56 },
            has_focus: false,
            enabled: true,
        }
    }

    pub fn title(&self) -> (r: &str)
        ensures
            r@ == self@.title,
    {
        self.title.as_str()
    }

    pub fn set_title(&mut self, title: &str)
        ensures
            final(self)@ == (CommandLinkView { title: title@, ..old(self)@ }),
    {
        self.title = title.to_owned();
    }

    pub fn description(&self) -> (r: &str)
        ensures
            r@ == self@.description,
    {
        self.description.as_str()
    }

    pub fn set_description(&mut self, description: &str)
        ensures
            final(self)@ == (CommandLinkView { description: description@, ..old(self)@ }),
    {
        self.description = description.to_owned();
    }

    pub fn state(&self) -> (r: CommandLinkState)
        ensures
            r == self@.state,
    {
        self.state
    }

    pub fn geometry(&self) -> (r: Rect)
        ensures
            r == self@.geometry,
    {
        self.geometry
    }

    pub fn set_geometry(&mut self, rect: Rect)
        ensures
            final(self)@ == (CommandLinkView { geometry: rect, ..old(self)@ }),
    {
        self.geometry = rect;
    }

    pub fn has_focus(&self) -> (r: bool)
        ensures
            r == self@.has_focus,
    {
        self.has_focus
    }

    pub fn is_enabled(&self) -> (r: bool)
        ensures
            r == self@.enabled,
    {
        self.enabled
    }

    pub fn set_enabled(&mut self, enabled: bool)
        ensures
            final(self)@ == (CommandLinkView { enabled, ..old(self)@ }),
    {
        self.enabled = enabled;
    }

    /// The preferred size, from the title's and description's measured width
    /// and height in whole pixels.
    pub fn size_hint(&self, title_width: i32, title_height: i32, desc_width: i32, desc_height: i32) -> (r: Size)
        requires
            title_width <= i32::MAX - 40,
            desc_width <= i32::MAX - 40,
            0 <= title_height,
            0 <= desc_height,
            title_height + desc_height + 24 <= i32::MAX,
        ensures
            r == link_size_hint(
                self@.description.len() == 0,
                title_width as int,
                title_height as int,
                desc_width as int,
                desc_height as int,
            ),
    {
        let empty = self.description.as_str().is_empty();
        proof {
            assert(empty == (self@.description.len() == 0));
        }
        let dw: i32 = if empty {
            0
        } else {
            desc_width
        };
        let content_w: i32 = (if title_width > dw {
            title_width
        } else {
            dw
        }) + 40;
        let content_h: i32 = if empty {
            44
        } else {
            title_height + desc_height + 24
        };
        Size {
            width: if content_w > 160 {
                content_w
            } else {
                160
            },
            height: if content_h > 50 {
                content_h
            } else {
                50
            },
        }
    }

    fn on_button(&self, pos: Point) -> (r: bool)
        ensures
            r == on_button(self@, pos),
    {
        Rect { x: 0, y: 0, width: self.geometry.width, height: self.geometry.height }.contains(pos)
    }

    /// A mouse press.
    pub fn mouse_press_event(&mut self, pos: Point, button: u32)
        ensures
            final(self)@ == spec_link_press(old(self)@, pos, button),
    {
        if button == 1 && self.on_button(pos) {
            self.state = CommandLinkState::Pressed;
            self.has_focus = true;
        }
    }

    /// A mouse release; returns whether the button was clicked.
    pub fn mouse_release_event(&mut self, pos: Point, button: u32) -> (clicked: bool)
        ensures
            (final(self)@, clicked) == spec_link_release(old(self)@, pos, button),
    {
        if button == 1 && self.state == CommandLinkState::Pressed {
            let inside = self.on_button(pos);
            self.state = if inside {
                CommandLinkState::Hovered
            } else {
                CommandLinkState::Normal
            };
            inside
        } else {
            false
        }
    }

    /// The pointer entered: a normal button becomes hovered.
    pub fn enter_event(&mut self)
        ensures
            final(self)@ == (if old(self)@.state == CommandLinkState::Normal {
                CommandLinkView { state: CommandLinkState::Hovered, ..old(self)@ }
            } else {
                old(self)@
            }),
    {
        if self.state == CommandLinkState::Normal {
            self.state = CommandLinkState::Hovered;
        }
    }

    /// The pointer left: a hovered button becomes normal.
    pub fn leave_event(&mut self)
        ensures
            final(self)@ == (if old(self)@.state == CommandLinkState::Hovered {
                CommandLinkView { state: CommandLinkState::Normal, ..old(self)@ }
            } else {
                old(self)@
            }),
    {
        if self.state == CommandLinkState::Hovered {
            self.state = CommandLinkState::Normal;
        }
    }

    /// Space or Enter presses the button.
    pub fn key_press_event(&mut self, key: u32)
        ensures
            final(self)@ == (if is_activation_key(key) {
                CommandLinkView { state: CommandLinkState::Pressed, ..old(self)@ }
            } else {
                old(self)@
            }),
    {
        if key == KEY_SPACE || is_enter(key) {
            self.state = CommandLinkState::Pressed;
        }
    }

    /// Releasing Space or Enter on a pressed button clicks it; returns
    /// whether it did.
    pub fn key_release_event(&mut self, key: u32) -> (clicked: bool)
        ensures
            clicked == (is_activation_key(key) && old(self)@.state == CommandLinkState::Pressed),
            final(self)@ == (if clicked {
                CommandLinkView { state: CommandLinkState::Normal, ..old(self)@ }
            } else {
                old(self)@
            }),
    {
        if (key == KEY_SPACE || is_enter(key)) && self.state == CommandLinkState::Pressed {
            self.state = CommandLinkState::Normal;
            true
        } else {
            false
        }
    }
}

/// A left press and release on the button clicks it and leaves it hovered
/// with focus; released elsewhere, it is not clicked and returns to normal.
pub proof fn lemma_press_release_clicks(v: CommandLinkView, down: Point, up: Point)
    requires
        on_button(v, down),
    ensures
        spec_link_release(spec_link_press(v, down, 1), up, 1).1 == on_button(v, up),
        spec_link_release(spec_link_press(v, down, 1), up, 1).0.has_focus,
        spec_link_release(spec_link_press(v, down, 1), up, 1).0.state == (if on_button(v, up) {
            CommandLinkState::Hovered
        } else {
            CommandLinkState::Normal
        }),
{
}

/// No release clicks a button that was not pressed.
pub proof fn lemma_release_needs_press(v: CommandLinkView, pos: Point, button: u32)
    requires
        v.state != CommandLinkState::Pressed,
    ensures
        spec_link_release(v, pos, button) == (v, false),
{
}

} // verus!
