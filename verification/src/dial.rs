//! Dials (`QDial`): a round slider. The value under the pointer follows
//! from the pointer's angle about the centre, which the caller computes and
//! hands in; the dial decides what a press, a drag and a release do with it.

use vstd::prelude::*;

use crate::geometry::{Rect, Size};
use crate::scroll::Orientation;
use crate::slider::{SliderState, SliderView, committed, key_action, positioned, pressed_down, triggered};

verus! {

/// A dial as plain values.
pub struct DialView {
    pub slider: SliderView,
    pub notches_visible: bool,
    pub mouse_down: bool,
    pub enabled: bool,
    pub has_focus: bool,
    pub geometry: Rect,
}

/// A left press on an enabled dial whose range is not empty, while no press
/// is held, moves the handle to the value under the pointer and holds it.
pub open spec fn spec_dial_press(d: DialView, button: u32, value_at_pos: i32) -> DialView {
    if !d.enabled || d.slider.maximum == d.slider.minimum || button != 1 || d.mouse_down {
        d
    } else {
        DialView {
            mouse_down: true,
            slider: pressed_down(positioned(d.slider, value_at_pos as int), true),
            ..d
        }
    }
}

/// Dragging with the button held moves the handle.
pub open spec fn spec_dial_move(d: DialView, value_at_pos: i32) -> DialView {
    if d.mouse_down {
        DialView { slider: positioned(d.slider, value_at_pos as int), ..d }
    } else {
        d
    }
}

/// Releasing the left button commits the value under the pointer and lets
/// the handle go.
pub open spec fn spec_dial_release(d: DialView, button: u32, value_at_pos: i32) -> DialView {
    if button != 1 || !d.mouse_down {
        d
    } else {
        DialView {
            mouse_down: false,
            slider: pressed_down(committed(d.slider, value_at_pos as int), false),
            ..d
        }
    }
}

/// A round slider.
pub struct Dial {
    state: SliderState,
    notches_visible: bool,
    mouse_down: bool,
    enabled: bool,
    has_focus: bool,
    geometry: Rect,
}

impl View for Dial {
    type V = DialView;

    closed spec fn view(&self) -> DialView {
        DialView {
            slider: self.state@,
            notches_visible: self.notches_visible,
            mouse_down: self.mouse_down,
            enabled: self.enabled,
            has_focus: self.has_focus,
            geometry: self.geometry,
        }
    }
}

impl Dial {
    /// The dial's invariant: that of its slider state.
    pub closed spec fn wf(&self) -> bool {
        self.state.wf()
    }

    /// The dial is sound when its slider state is.
    pub proof fn lemma_wf_is_state_wf(&self)
        ensures
            self.wf() == self.spec_state().wf(),
            self@.slider == self.spec_state()@,
    {
    }

    /// A 50 by 50 dial over the default slider range, enabled, notches hidden.
    pub fn new() -> (r: Self)
        ensures
            r.wf(),
            r@.slider == (SliderView {
                minimum: 0,
                maximum: 99,
                value: 0,
                position: 0,
                single_step: 1,
                page_step: 10,
                tracking: true,
                pressed: false,
                inverted_appearance: false,
                inverted_controls: false,
                orientation: Orientation::Horizontal,
                wrapping: false,
                notices: Seq::empty(),
            }),
            !r@.notches_visible,
            !r@.mouse_down,
            r@.enabled,
            !r@.has_focus,
            r@.geometry == (Rect { x: 0, y: 0, width: 50, height: 50 }),
    {
        Dial {
            state: SliderState::new(Orientation::Horizontal),
            notches_visible: false,
            mouse_down: false,
            enabled: true,
            has_focus: false,
            geometry: Rect { x: 0, y: 0, width: 50, height: 50 },
        }
    }

    /// The slider state.
    pub fn state(&self) -> (r: &SliderState)
        ensures
            r == self.spec_state(),
            r@ == self@.slider,
    {
        &self.state
    }

    /// Whether values wrap around between maximum and minimum.
    pub fn wrapping(&self) -> (r: bool)
        ensures
            r == self@.slider.wrapping,
    {
        self.state.wrapping()
    }

    pub fn set_wrapping(&mut self, wrapping: bool)
        requires
            old(self).wf(),
        ensures
            final(self).wf(),
            final(self)@ == (DialView { slider: SliderView { wrapping, ..old(self)@.slider }, ..old(self)@ }),
    {
        self.state.set_wrapping(wrapping);
    }

    pub fn notches_visible(&self) -> (r: bool)
        ensures
            r == self@.notches_visible,
    {
        self.notches_visible
    }

    pub fn set_notches_visible(&mut self, visible: bool)
        requires
            old(self).wf(),
        ensures
            final(self).wf(),
            final(self)@ == (DialView { notches_visible: visible, ..old(self)@ }),
    {
        self.notches_visible = visible;
    }

    /// The slider state behind the dial.
    pub closed spec fn spec_state(&self) -> &SliderState {
        &self.state
    }

    /// The slider state, to change (its range, steps and value).
    pub fn state_mut(&mut self) -> (r: &mut SliderState)
        ensures
            *r == *old(self).spec_state(),
            final(self)@ == (DialView { slider: final(r)@, ..old(self)@ }),
            final(self).wf() == final(r).wf(),
    {
        &mut self.state
    }

    /// Enables or disables the dial; disabling lets a held handle go.
    pub fn set_enabled(&mut self, enabled: bool)
        requires
            old(self).wf(),
        ensures
            final(self).wf(),
            final(self)@ == (if enabled {
                DialView { enabled, ..old(self)@ }
            } else {
                DialView {
                    enabled,
                    mouse_down: false,
                    slider: pressed_down(old(self)@.slider, false),
                    ..old(self)@
                }
            }),
    {
        self.enabled = enabled;
        if !enabled {
            self.mouse_down = false;
            self.state.set_slider_down(false);
        }
    }

    pub fn is_enabled(&self) -> (r: bool)
        ensures
            r == self@.enabled,
    {
        self.enabled
    }

    pub fn has_focus(&self) -> (r: bool)
        ensures
            r == self@.has_focus,
    {
        self.has_focus
    }

    pub fn set_has_focus(&mut self, focus: bool)
        requires
            old(self).wf(),
        ensures
            final(self).wf(),
            final(self)@ == (DialView { has_focus: focus, ..old(self)@ }),
    {
        self.has_focus = focus;
    }

    pub fn geometry(&self) -> (r: Rect)
        ensures
            r == self@.geometry,
    {
        self.geometry
    }

    pub fn set_geometry(&mut self, rect: Rect)
        requires
            old(self).wf(),
        ensures
            final(self).wf(),
            final(self)@ == (DialView { geometry: rect, ..old(self)@ }),
    {
        self.geometry = rect;
    }

    /// The preferred and the minimum size: 50 by 50.
    pub fn size_hint(&self) -> (r: Size)
        ensures
            r == (Size { width: 50, height: 50 }),
    {
        Size { width: 50, height: 50 }
    }

    /// A mouse press; `value_at_pos` is the value under the pointer.
    pub fn mouse_press_event(&mut self, button: u32, value_at_pos: i32)
        requires
            old(self).wf(),
        ensures
            final(self).wf(),
            final(self)@ == spec_dial_press(old(self)@, button, value_at_pos),
    {
        if !self.enabled || self.state.maximum() == self.state.minimum() || button != 1 || self.mouse_down {
            return;
        }
        self.mouse_down = true;
        self.state.set_slider_position(value_at_pos);
        self.state.set_slider_down(true);
    }

    /// A drag; `value_at_pos` is the value under the pointer.
    pub fn mouse_move_event(&mut self, value_at_pos: i32)
        requires
            old(self).wf(),
        ensures
            final(self).wf(),
            final(self)@ == spec_dial_move(old(self)@, value_at_pos),
    {
        if self.mouse_down {
            self.state.set_slider_position(value_at_pos);
        }
    }

    /// A mouse release; `value_at_pos` is the value under the pointer.
    pub fn mouse_release_event(&mut self, button: u32, value_at_pos: i32)
        requires
            old(self).wf(),
        ensures
            final(self).wf(),
            final(self)@ == spec_dial_release(old(self)@, button, value_at_pos),
    {
        if button != 1 || !self.mouse_down {
            return;
        }
        self.mouse_down = false;
        self.state.set_value(value_at_pos);
        self.state.set_slider_down(false);
    }

    /// A key on an enabled dial steps as a slider does; returns whether it was used.
    pub fn key_press_event(&mut self, key: u32) -> (r: bool)
        requires
            old(self).wf(),
        ensures
            final(self).wf(),
            !old(self)@.enabled ==> !r && final(self)@ == old(self)@,
            old(self)@.enabled ==> r == key_action(key, old(self)@.slider.inverted_controls) is Some
                && match key_action(key, old(self)@.slider.inverted_controls) {
                Some(a) => final(self)@ == (DialView { slider: triggered(old(self)@.slider, a), ..old(self)@ }),
                None => final(self)@ == old(self)@,
            },
    {
        if self.enabled {
            self.state.key_press(key)
        } else {
            false
        }
    }
}

} // verus!
