//! Mouse grabbing and popup auto-dismissal.

use vstd::prelude::*;

use crate::geometry::{Point, Rect};

verus! {

/// The open popup, by widget identifier, with its geometry in window coordinates.
#[derive(Debug, Clone, Copy, PartialEq, Eq, Structural)]
pub struct OpenPopup {
    pub id: u64,
    pub geometry: Rect,
}

/// Tracks the open popup and the widget that grabs the mouse.
pub struct PopupManager {
    active_popup: Option<OpenPopup>,
    mouse_grabber: Option<u64>,
    auto_dismiss: bool,
}

/// A popup manager as plain values.
pub struct PopupView {
    pub active_popup: Option<OpenPopup>,
    pub mouse_grabber: Option<u64>,
    pub auto_dismiss: bool,
}

impl View for PopupManager {
    type V = PopupView;

    closed spec fn view(&self) -> PopupView {
        PopupView {
            active_popup: self.active_popup,
            mouse_grabber: self.mouse_grabber,
            auto_dismiss: self.auto_dismiss,
        }
    }
}

impl PopupManager {
    /// No popup and no grab; popups opened later dismiss themselves by default.
    pub fn new() -> (r: PopupManager)
        ensures
            r@ == (PopupView { active_popup: None, mouse_grabber: None, auto_dismiss: true }),
    {
        PopupManager { active_popup: None, mouse_grabber: None, auto_dismiss: true }
    }

    /// Opens the popup `id` at `geometry` (the caller shows it) and lets it
    /// grab the mouse.
    pub fn open_popup(&mut self, id: u64, geometry: Rect, auto_dismiss: bool)
        ensures
            final(self)@ == (PopupView {
                active_popup: Some(OpenPopup { id, geometry }),
                mouse_grabber: Some(id),
                auto_dismiss,
            }),
    {
        self.active_popup = Some(OpenPopup { id, geometry });
        self.mouse_grabber = Some(id);
        self.auto_dismiss = auto_dismiss;
    }

    /// Closes the active popup and releases the grab; returns the popup the
    /// caller must hide, if there was one.
    pub fn close_popup(&mut self) -> (r: Option<u64>)
        ensures
            r == match old(self)@.active_popup {
                Some(p) => Some(p.id),
                None => None,
            },
            final(self)@ == (PopupView { active_popup: None, mouse_grabber: None, ..old(self)@ }),
    {
        let r = match self.active_popup {
            Some(p) => Some(p.id),
            None => None,
        };
        self.active_popup = None;
        self.mouse_grabber = None;
        r
    }

    /// The widget that grabs the mouse, if any.
    pub fn mouse_grabber(&self) -> (r: Option<u64>)
        ensures
            r == self@.mouse_grabber,
    {
        self.mouse_grabber
    }

    /// Sets the widget that grabs the mouse explicitly.
    pub fn set_mouse_grabber(&mut self, grabber: Option<u64>)
        ensures
            final(self)@ == (PopupView { mouse_grabber: grabber, ..old(self)@ }),
    {
        self.mouse_grabber = grabber;
    }

    /// A mouse button goes down at `pos`: a press outside an auto-dismissing
    /// popup closes it. Returns the popup the caller must hide, if one was
    /// dismissed.
    pub fn handle_mouse_press(&mut self, pos: Point) -> (r: Option<u64>)
        ensures
            match old(self)@.active_popup {
                Some(p) => if !p.geometry.spec_contains(pos) && old(self)@.auto_dismiss {
                    r == Some(p.id) && final(self)@ == (PopupView {
                        active_popup: None,
                        mouse_grabber: None,
                        ..old(self)@
                    })
                } else {
                    r is None && final(self)@ == old(self)@
                },
                None => r is None && final(self)@ == old(self)@,
            },
    {
        match self.active_popup {
            Some(p) => {
                if !p.geometry.contains(pos) && self.auto_dismiss {
                    self.close_popup()
                } else {
                    None
                }
            },
            None => None,
        }
    }
}

impl Default for PopupManager {
    /// No popup and no grab, and no auto-dismissal until a popup is opened.
    fn default() -> (r: PopupManager)
        ensures
            r@ == (PopupView { active_popup: None, mouse_grabber: None, auto_dismiss: false }),
    {
        PopupManager { active_popup: None, mouse_grabber: None, auto_dismiss: false }
    }
}

} // verus!
