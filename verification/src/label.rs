//! Text labels (`QLabel`): the text, its alignment and the size the label
//! takes from its measured text.

use vstd::prelude::*;

use crate::geometry::{Rect, Size};

verus! {

/// Horizontal alignment of a text in its box.
#[derive(Debug, Clone, Copy, PartialEq, Eq, Structural)]
pub enum Alignment {
    Left,
    Center,
    Right,
}

impl Default for Alignment {
    fn default() -> (r: Alignment)
        ensures
            r == Alignment::Left,
    {
        Alignment::Left
    }
}

/// A label as plain values.
pub struct LabelView {
    pub text: Seq<char>,
    pub alignment: Alignment,
    pub geometry: Rect,
    pub visible: bool,
    pub enabled: bool,
}

/// `a` or at least `min`.
pub open spec fn at_least(a: int, min: int) -> int {
    if a > min {
        a
    } else {
        min
    }
}

/// A label.
pub struct Label {
    text: String,
    alignment: Alignment,
    geometry: Rect,
    visible: bool,
    enabled: bool,
}

impl View for Label {
    type V = LabelView;

    closed spec fn view(&self) -> LabelView {
        LabelView {
            text: self.text@,
            alignment: self.alignment,
            geometry: self.geometry,
            visible: self.visible,
            enabled: self.enabled,
        }
    }
}

impl Label {
    /// A left-aligned label showing `text` whose measured extent, in whole
    /// pixels, is `text_width` by `text_height`: it starts at the origin,
    /// 10 wider (at least 60) and 6 higher (at least 24) than its text.
    pub fn new(text: &str, text_width: i32, text_height: i32) -> (r: Self)
        requires
            text_width <= i32::MAX - 10,
            text_height <= i32::MAX - 6,
        ensures
            r@ == (LabelView {
                text: text@,
                alignment: Alignment::Left,
                geometry: Rect {
                    x: 0,
                    y: 0,
                    width: at_least(text_width + 10, 60) as i32,
                    height: at_least(text_height + 6, 24) as i32,
                },
                visible: true,
                enabled: true,
            }),
    {
        let w = text_width + 10;
        let h = text_height + 6;
        Label {
            text: text.to_owned(),
            alignment: Alignment::Left,
            geometry: Rect {
                x: 0,
                y: 0,
                width: if w > 60 {
                    w
                } else {
                    60
                },
                height: if h > 24 {
                    h
                } else {
                    24
                },
            },
            visible: true,
            enabled: true,
        }
    }

    pub fn text(&self) -> (r: &str)
        ensures
            r@ == self@.text,
    {
        self.text.as_str()
    }

    pub fn set_text(&mut self, text: &str)
        ensures
            final(self)@ == (LabelView { text: text@, ..old(self)@ }),
    {
        self.text = text.to_owned();
    }

    pub fn alignment(&self) -> (r: Alignment)
        ensures
            r == self@.alignment,
    {
        self.alignment
    }

    pub fn set_alignment(&mut self, alignment: Alignment)
        ensures
            final(self)@ == (LabelView { alignment, ..old(self)@ }),
    {
        self.alignment = alignment;
    }

    pub fn geometry(&self) -> (r: Rect)
        ensures
            r == self@.geometry,
    {
        self.geometry
    }

    pub fn set_geometry(&mut self, rect: Rect)
        ensures
            final(self)@ == (LabelView { geometry: rect, ..old(self)@ }),
    {
        self.geometry = rect;
    }

    pub fn is_visible(&self) -> (r: bool)
        ensures
            r == self@.visible,
    {
        self.visible
    }

    pub fn set_visible(&mut self, visible: bool)
        ensures
            final(self)@ == (LabelView { visible, ..old(self)@ }),
    {
        self.visible = visible;
    }

    pub fn is_enabled(&self) -> (r: bool)
        ensures
            r == self@.enabled,
    {
        self.enabled
    }

    pub fn set_enabled(&mut self, enabled: bool)
        ensures
            final(self)@ == (LabelView { enabled, ..old(self)@ }),
    {
        self.enabled = enabled;
    }

    /// The preferred size for the text measured at `text_width` by
    /// `text_height`: 10 wider (at least 40) and 6 higher (at least 20).
    pub fn size_hint(&self, text_width: i32, text_height: i32) -> (r: Size)
        requires
            text_width <= i32::MAX - 10,
            text_height <= i32::MAX - 6,
        ensures
            r == (Size {
                width: at_least(text_width + 10, 40) as i32,
                height: at_least(text_height + 6, 20) as i32,
            }),
    {
        let w = text_width + 10;
        let h = text_height + 6;
        Size {
            width: if w > 40 {
                w
            } else {
                40
            },
            height: if h > 20 {
                h
            } else {
                20
            },
        }
    }
}

} // verus!
