//! Group boxes (`QGroupBox`): a titled frame whose optional check box enables
//! and disables the widgets it holds.
//!
//! When checkable and unchecked, every enabled child is disabled; children that
//! were already disabled stay disabled after re-checking.

use vstd::prelude::*;

use crate::action_keys::{strip_mnemonic, stripped};
use crate::geometry::{Point, Rect, Size};
use crate::label::Alignment;
use crate::text::str_to_string;

verus! {

/// Sub-control hit by a point (`QStyle::SubControl` for a group box).
#[derive(Debug, Clone, Copy, PartialEq, Eq, Structural, Hash)]
pub enum GroupBoxSubControl {
    NoSubControl,
    CheckBox,
    Label,
    Contents,
    Frame,
}

/// A child widget of a group box, as the group box sees it.
#[derive(Debug, Clone, Copy, PartialEq, Eq, Structural)]
pub struct GroupChild {
    pub id: u64,
    pub enabled: bool,
    /// The group box disabled it because it was unchecked.
    pub auto_disabled: bool,
}

/// A group box as plain values.
pub struct GroupBoxView {
    pub title: Seq<char>,
    pub alignment: Alignment,
    pub flat: bool,
    pub checkable: bool,
    pub checked: bool,
    pub enabled: bool,
    pub pressed_title: bool,
    pub space_pressed: bool,
    pub children: Seq<GroupChild>,
}

/// Frame with a title that groups child widgets.
pub struct GroupBox {
    title: String,
    alignment: Alignment,
    flat: bool,
    checkable: bool,
    checked: bool,
    enabled: bool,
    pressed_title: bool,
    space_pressed: bool,
    children: Vec<GroupChild>,
}

impl View for GroupBox {
    type V = GroupBoxView;

    closed spec fn view(&self) -> GroupBoxView {
        GroupBoxView {
            title: self.title@,
            alignment: self.alignment,
            flat: self.flat,
            checkable: self.checkable,
            checked: self.checked,
            enabled: self.enabled,
            pressed_title: self.pressed_title,
            space_pressed: self.space_pressed,
            children: self.children@,
        }
    }
}

/// Children after `_q_setChildrenEnabled(enabled)`: enabling restores exactly
/// the children the group box disabled; disabling disables every enabled child
/// and remembers it.
pub open spec fn children_enabled(cs: Seq<GroupChild>, enabled: bool) -> Seq<GroupChild> {
    cs.map_values(
        |c: GroupChild|
            if enabled {
                if c.auto_disabled {
                    GroupChild { enabled: true, auto_disabled: false, ..c }
                } else {
                    c
                }
            } else if c.enabled {
                GroupChild { enabled: false, auto_disabled: true, ..c }
            } else {
                c
            },
    )
}

/// `QGroupBox::setChecked`: only a checkable box changes, and then its
/// children follow the new state.
pub open spec fn spec_set_checked(v: GroupBoxView, checked: bool) -> GroupBoxView {
    if v.checkable && checked != v.checked {
        GroupBoxView { checked, children: children_enabled(v.children, checked), ..v }
    } else {
        v
    }
}

/// A click on the check box: an enabled, checkable box flips its state.
pub open spec fn spec_click(v: GroupBoxView) -> GroupBoxView {
    if !v.checkable || !v.enabled {
        v
    } else {
        spec_set_checked(v, !v.checked)
    }
}

/// `QGroupBox::setCheckable`: becoming checkable checks the box; children are
/// re-enabled whenever the box becomes checkable or stops being so.
pub open spec fn spec_set_checkable(v: GroupBoxView, checkable: bool) -> GroupBoxView {
    let v1 = GroupBoxView { checkable, ..v };
    if checkable {
        let v2 = spec_set_checked(v1, true);
        if !v.checkable {
            GroupBoxView { children: children_enabled(v2.children, true), ..v2 }
        } else {
            v2
        }
    } else {
        GroupBoxView { children: children_enabled(v1.children, true), ..v1 }
    }
}

/// The children that are enabled, and nothing else, are what re-checking
/// gives back: the enabled flags with every pending restoration applied.
pub open spec fn restored_flags(cs: Seq<GroupChild>) -> Seq<bool> {
    cs.map_values(|c: GroupChild| c.enabled || c.auto_disabled)
}

/// `cs` without the children with `id`.
pub open spec fn without_child(cs: Seq<GroupChild>, id: u64) -> Seq<GroupChild>
    decreases cs.len(),
{
    if cs.len() == 0 {
        cs
    } else if cs.last().id == id {
        without_child(cs.drop_last(), id)
    } else {
        without_child(cs.drop_last(), id).push(cs.last())
    }
}

impl GroupBox {
    /// A non-checkable, enabled group box with a left-aligned title and no children.
    pub fn new(title: &str) -> (r: GroupBox)
        ensures
            r@ == (GroupBoxView {
                title: title@,
                alignment: Alignment::Left,
                flat: false,
                checkable: false,
                checked: true,
                enabled: true,
                pressed_title: false,
                space_pressed: false,
                children: Seq::empty(),
            }),
    {
        let r = GroupBox {
            title: str_to_string(title),
            alignment: Alignment::Left,
            flat: false,
            checkable: false,
            checked: true,
            enabled: true,
            pressed_title: false,
            space_pressed: false,
            children: Vec::new(),
        };
        assert(r@.children =~= Seq::<GroupChild>::empty());
        r
    }

    pub fn title(&self) -> (r: &str)
        ensures
            r@ == self@.title,
    {
        self.title.as_str()
    }

    /// Sets the title; `&` marks a mnemonic and `&&` a literal ampersand.
    pub fn set_title(&mut self, title: &str)
        ensures
            final(self)@ == (GroupBoxView { title: title@, ..old(self)@ }),
    {
        self.title = str_to_string(title);
    }

    /// The title without mnemonic markers.
    pub fn display_title(&self) -> (r: String)
        ensures
            r@ == stripped(self@.title),
    {
        strip_mnemonic(self.title.as_str())
    }

    pub fn alignment(&self) -> (r: Alignment)
        ensures
            r == self@.alignment,
    {
        self.alignment
    }

    pub fn set_alignment(&mut self, alignment: Alignment)
        ensures
            final(self)@ == (GroupBoxView { alignment, ..old(self)@ }),
    {
        self.alignment = alignment;
    }

    /// Flat group boxes draw only a top line and no side margins.
    pub fn is_flat(&self) -> (r: bool)
        ensures
            r == self@.flat,
    {
        self.flat
    }

    pub fn set_flat(&mut self, flat: bool)
        ensures
            final(self)@ == (GroupBoxView { flat, ..old(self)@ }),
    {
        self.flat = flat;
    }

    pub fn is_checkable(&self) -> (r: bool)
        ensures
            r == self@.checkable,
    {
        self.checkable
    }

    /// Whether the box is checkable and checked.
    pub fn is_checked(&self) -> (r: bool)
        ensures
            r == (self@.checkable && self@.checked),
    {
        self.checkable && self.checked
    }

    pub fn is_enabled(&self) -> (r: bool)
        ensures
            r == self@.enabled,
    {
        self.enabled
    }

    /// The children, in the order they were added.
    pub fn children(&self) -> (r: Vec<GroupChild>)
        ensures
            r@ == self@.children,
    {
        self.children.clone()
    }

    fn set_children_enabled(&mut self, enabled: bool)
        ensures
            final(self)@ == (GroupBoxView {
                children: children_enabled(old(self)@.children, enabled),
                ..old(self)@
            }),
    {
        let mut out: Vec<GroupChild> = Vec::new();
        let mut i: usize = 0;
        while i < self.children.len()
            invariant
                0 <= i <= self.children@.len(),
                self@ == old(self)@,
                out@ =~= children_enabled(self.children@.subrange(0, i as int), enabled),
            decreases self.children@.len() - i,
        {
            let c = self.children[i];
            let n = if enabled {
                if c.auto_disabled {
                    GroupChild { enabled: true, auto_disabled: false, ..c }
                } else {
                    c
                }
            } else if c.enabled {
                GroupChild { enabled: false, auto_disabled: true, ..c }
            } else {
                c
            };
            out.push(n);
            i = i + 1;
            assert(out@ =~= children_enabled(self.children@.subrange(0, i as int), enabled));
        }
        assert(self.children@.subrange(0, i as int) =~= self.children@);
        self.children = out;
    }

    /// Checks or unchecks a checkable box, enabling or disabling its children
    /// ([`spec_set_checked`]); returns whether the state changed (and the
    /// toggled notification is sent).
    pub fn set_checked(&mut self, checked: bool) -> (changed: bool)
        ensures
            final(self)@ == spec_set_checked(old(self)@, checked),
            changed == (old(self)@.checkable && checked != old(self)@.checked),
    {
        if self.checkable && checked != self.checked {
            self.checked = checked;
            self.set_children_enabled(checked);
            true
        } else {
            false
        }
    }

    /// Flips the state as a user click would ([`spec_click`]); returns the
    /// state the clicked notification carries, or `None` when ignored.
    pub fn click(&mut self) -> (r: Option<bool>)
        ensures
            final(self)@ == spec_click(old(self)@),
            r == if old(self)@.checkable && old(self)@.enabled {
                Some(!old(self)@.checked)
            } else {
                None
            },
    {
        if !self.checkable || !self.enabled {
            return None;
        }
        let next = !self.checked;
        self.set_checked(next);
        Some(self.checked)
    }

    /// Gives the title a check box or takes it away ([`spec_set_checkable`]).
    pub fn set_checkable(&mut self, checkable: bool)
        ensures
            final(self)@ == spec_set_checkable(old(self)@, checkable),
    {
        let was_checkable = self.checkable;
        self.checkable = checkable;
        if checkable {
            self.set_checked(true);
            if !was_checkable {
                self.set_children_enabled(true);
            }
        } else {
            self.set_children_enabled(true);
        }
    }

    /// Enables or disables the group box itself; re-enabling an unchecked
    /// checkable box keeps its children disabled.
    pub fn set_enabled(&mut self, enabled: bool)
        ensures
            final(self)@ == if old(self)@.enabled == enabled {
                old(self)@
            } else if enabled && old(self)@.checkable && !old(self)@.checked {
                GroupBoxView { enabled, children: children_enabled(old(self)@.children, false), ..old(self)@ }
            } else {
                GroupBoxView { enabled, ..old(self)@ }
            },
    {
        if self.enabled == enabled {
            return;
        }
        self.enabled = enabled;
        if enabled && self.checkable && !self.checked {
            self.set_children_enabled(false);
        }
    }

    /// Adds a child; one added to an unchecked checkable box starts disabled.
    pub fn add_child(&mut self, id: u64, enabled: bool)
        ensures
            final(self)@ == (GroupBoxView {
                children: old(self)@.children.push(
                    if old(self)@.checkable && !old(self)@.checked && enabled {
                        GroupChild { id, enabled: false, auto_disabled: true }
                    } else {
                        GroupChild { id, enabled, auto_disabled: false }
                    },
                ),
                ..old(self)@
            }),
    {
        let c = if self.checkable && !self.checked && enabled {
            GroupChild { id, enabled: false, auto_disabled: true }
        } else {
            GroupChild { id, enabled, auto_disabled: false }
        };
        self.children.push(c);
    }

    /// Removes the children with `id`.
    pub fn remove_child(&mut self, id: u64)
        ensures
            final(self)@ == (GroupBoxView { children: without_child(old(self)@.children, id), ..old(self)@ }),
    {
        let mut out: Vec<GroupChild> = Vec::new();
        let mut i: usize = 0;
        while i < self.children.len()
            invariant
                0 <= i <= self.children@.len(),
                self@ == old(self)@,
                out@ == without_child(self.children@.subrange(0, i as int), id),
            decreases self.children@.len() - i,
        {
            proof {
                let cs = self.children@.subrange(0, i as int + 1);
                assert(cs.drop_last() =~= self.children@.subrange(0, i as int));
            }
            let c = self.children[i];
            if c.id != id {
                out.push(c);
            }
            i = i + 1;
        }
        assert(self.children@.subrange(0, i as int) =~= self.children@);
        self.children = out;
    }

    /// A child's own enabled state changes from outside the group box.
    pub fn set_child_enabled(&mut self, index: usize, enabled: bool)
        requires
            index < old(self)@.children.len(),
        ensures
            final(self)@ == (GroupBoxView {
                children: old(self)@.children.update(
                    index as int,
                    GroupChild { enabled, ..old(self)@.children[index as int] },
                ),
                ..old(self)@
            }),
    {
        let c = self.children[index];
        self.children.set(index, GroupChild { enabled, ..c });
    }

    /// The left button goes down; `on_title` tells whether the press hit the
    /// check box or the title label. A press there on a checkable box starts
    /// a title click.
    pub fn mouse_press_event(&mut self, button: u32, on_title: bool)
        ensures
            final(self)@ == if button != 1 {
                old(self)@
            } else {
                GroupBoxView { pressed_title: old(self)@.checkable && on_title, ..old(self)@ }
            },
    {
        if button != 1 {
            return;
        }
        self.pressed_title = self.checkable && on_title;
    }

    /// The left button goes up; `on_title` as for the press. Ending a title
    /// click on the title clicks the box. Returns the state the clicked
    /// notification carries, if it is sent.
    pub fn mouse_release_event(&mut self, button: u32, on_title: bool) -> (r: Option<bool>)
        ensures
            ({
                let o = old(self)@;
                if button != 1 || !o.pressed_title {
                    final(self)@ == o && r is None
                } else {
                    let o1 = GroupBoxView { pressed_title: false, ..o };
                    if o.checkable && on_title {
                        &&& final(self)@ == spec_click(o1)
                        &&& r == if o.enabled {
                            Some(!o.checked)
                        } else {
                            None
                        }
                    } else {
                        final(self)@ == o1 && r is None
                    }
                }
            }),
    {
        if button != 1 || !self.pressed_title {
            return None;
        }
        self.pressed_title = false;
        if self.checkable && on_title {
            self.click()
        } else {
            None
        }
    }

    /// Space goes down on an enabled checkable box (not a repeat): a keyboard
    /// click starts.
    pub fn key_press_event(&mut self, key: u32, is_repeat: bool)
        ensures
            final(self)@ == if key == 0x20 && old(self)@.checkable && old(self)@.enabled && !is_repeat {
                GroupBoxView { space_pressed: true, ..old(self)@ }
            } else {
                old(self)@
            },
    {
        if key == 0x20 && self.checkable && self.enabled && !is_repeat {
            self.space_pressed = true;
        }
    }

    /// Space goes up after a keyboard click started: the box is clicked.
    /// Returns the state the clicked notification carries, if it is sent.
    pub fn key_release_event(&mut self, key: u32) -> (r: Option<bool>)
        ensures
            ({
                let o = old(self)@;
                if key == 0x20 && o.space_pressed {
                    let o1 = GroupBoxView { space_pressed: false, ..o };
                    &&& final(self)@ == spec_click(o1)
                    &&& r == if o.checkable && o.enabled {
                        Some(!o.checked)
                    } else {
                        None
                    }
                } else {
                    final(self)@ == o && r is None
                }
            }),
    {
        if key == 0x20 && self.space_pressed {
            self.space_pressed = false;
            self.click()
        } else {
            None
        }
    }

    /// Focus leaves the box: a keyboard click in progress is dropped.
    pub fn focus_out_event(&mut self)
        ensures
            final(self)@ == (GroupBoxView { space_pressed: false, ..old(self)@ }),
    {
        self.space_pressed = false;
    }
}

/// Unchecking a checkable box disables every child.
pub proof fn lemma_unchecked_disables_children(v: GroupBoxView)
    requires
        v.checkable,
        v.checked,
    ensures
        forall|i: int|
            0 <= i < v.children.len() ==> !(#[trigger] spec_set_checked(v, false).children[i]).enabled,
{
}

/// Unchecking and re-checking a checked box gives every child back the
/// enabled state it had, counting children it disabled as enabled: children
/// disabled on their own stay disabled.
pub proof fn lemma_recheck_restores_children(v: GroupBoxView)
    requires
        v.checkable,
        v.checked,
    ensures
        spec_set_checked(spec_set_checked(v, false), true).children.map_values(|c: GroupChild| c.enabled)
            =~= restored_flags(v.children),
        forall|i: int|
            0 <= i < v.children.len() ==> !(#[trigger] spec_set_checked(
                spec_set_checked(v, false),
                true,
            ).children[i]).auto_disabled,
{
}

/// With no restoration pending, unchecking and re-checking a checked box
/// leaves its children exactly as they were.
pub proof fn lemma_recheck_round_trip(v: GroupBoxView)
    requires
        v.checkable,
        v.checked,
        forall|i: int| 0 <= i < v.children.len() ==> !(#[trigger] v.children[i]).auto_disabled,
    ensures
        spec_set_checked(spec_set_checked(v, false), true) == v,
{
    let w = spec_set_checked(spec_set_checked(v, false), true);
    assert(w.children =~= v.children);
}


/// Side of the check indicator.
pub const INDICATOR_SIZE: i32 = 13;

/// Space between the indicator and the title.
pub const INDICATOR_SPACING: i32 = 6;

/// Inset of the title inside a frame that is not flat.
pub const TITLE_MARGIN: i32 = 8;

/// The measured title, in whole pixels: the height of a text line, and the
/// width of the shown title followed by a space.
#[derive(Debug, Clone, Copy, PartialEq, Eq, Structural)]
pub struct TitleMetrics {
    pub text_height: i32,
    pub title_width: i32,
}

/// `a` or `b`, whichever is larger.
pub open spec fn larger(a: int, b: int) -> int {
    if a >= b {
        a
    } else {
        b
    }
}

/// Height of the title row: none without title and indicator, else the text
/// line or the indicator, whichever is higher.
pub open spec fn title_row_height(v: GroupBoxView, m: TitleMetrics) -> int {
    if v.title.len() == 0 && !v.checkable {
        0
    } else {
        larger(m.text_height as int, if v.checkable {
            INDICATOR_SIZE as int
        } else {
            0
        })
    }
}

/// Width of the frame line: none when flat.
pub open spec fn box_frame_width(v: GroupBoxView) -> int {
    if v.flat {
        0
    } else {
        2
    }
}

/// The rectangle the frame is drawn in: below half the title row.
pub open spec fn spec_frame_rect(v: GroupBoxView, size: Size, m: TitleMetrics) -> Rect {
    let tm = title_row_height(v, m) / 2;
    Rect { x: 0, y: tm as i32, width: size.width, height: larger(size.height - tm, 0) as i32 }
}

/// The area for the children: inside the frame and below the title row.
pub open spec fn spec_contents_rect(v: GroupBoxView, size: Size, m: TitleMetrics) -> Rect {
    let th = title_row_height(v, m);
    let f = spec_frame_rect(v, size, m);
    let fw = box_frame_width(v);
    let top = fw + th - th / 2;
    Rect {
        x: (f.x + fw) as i32,
        y: (f.y + top) as i32,
        width: larger(f.width - 2 * fw, 0) as i32,
        height: larger(f.height - top - fw, 0) as i32,
    }
}

/// Width the indicator and its spacing take before the title.
pub open spec fn check_width(v: GroupBoxView) -> int {
    if v.checkable {
        INDICATOR_SIZE + INDICATOR_SPACING - 1
    } else {
        0
    }
}

/// Indicator and title together, aligned within the title row.
pub open spec fn spec_title_total(v: GroupBoxView, size: Size, m: TitleMetrics) -> Rect {
    let margin: int = if v.flat {
        0
    } else {
        TITLE_MARGIN as int
    };
    let h = larger(m.text_height as int, if v.checkable {
        INDICATOR_SIZE as int
    } else {
        0
    });
    let avail = larger(size.width - 2 * margin, 0);
    let want = m.title_width + check_width(v);
    let total_w = if want < avail {
        want
    } else {
        avail
    };
    let x = match v.alignment {
        Alignment::Left => margin,
        Alignment::Center => margin + (avail - total_w) / 2,
        Alignment::Right => margin + avail - total_w,
    };
    Rect { x: x as i32, y: 0, width: total_w as i32, height: h as i32 }
}

/// The indicator: centred in the title row at its start; nothing when not checkable.
pub open spec fn spec_check_box_rect(v: GroupBoxView, size: Size, m: TitleMetrics) -> Rect {
    if !v.checkable {
        Rect { x: 0, y: 0, width: 0, height: 0 }
    } else {
        let t = spec_title_total(v, size, m);
        Rect { x: t.x, y: (t.y + (t.height - INDICATOR_SIZE) / 2) as i32, width: INDICATOR_SIZE, height: INDICATOR_SIZE }
    }
}

/// The title label: the whole title row, or after the indicator when checkable.
pub open spec fn spec_label_rect(v: GroupBoxView, size: Size, m: TitleMetrics) -> Rect {
    let t = spec_title_total(v, size, m);
    if !v.checkable {
        t
    } else {
        Rect {
            x: (t.x + check_width(v) - 2) as i32,
            y: (t.y + (t.height - m.text_height) / 2) as i32,
            width: larger(t.width - check_width(v), 0) as i32,
            height: m.text_height,
        }
    }
}

/// The part of the box under `pos`: indicator, label, contents, frame, or none.
pub open spec fn spec_hit_test(v: GroupBoxView, size: Size, m: TitleMetrics, pos: Point) -> GroupBoxSubControl {
    if v.checkable && spec_check_box_rect(v, size, m).spec_contains(pos) {
        GroupBoxSubControl::CheckBox
    } else if v.title.len() > 0 && spec_label_rect(v, size, m).spec_contains(pos) {
        GroupBoxSubControl::Label
    } else if spec_contents_rect(v, size, m).spec_contains(pos) {
        GroupBoxSubControl::Contents
    } else if spec_frame_rect(v, size, m).spec_contains(pos) {
        GroupBoxSubControl::Frame
    } else {
        GroupBoxSubControl::NoSubControl
    }
}

/// Measured title sizes are never negative.
pub open spec fn metrics_measured(m: TitleMetrics) -> bool {
    m.text_height >= 0 && m.title_width >= 0
}

/// The frame rectangle of a box of `size` can be computed in `i32`: the
/// height less half the title row does not go below `i32::MIN`.
pub open spec fn frame_fits(v: GroupBoxView, size: Size, m: TitleMetrics) -> bool {
    &&& metrics_measured(m)
    &&& size.height - title_row_height(v, m) / 2 >= i32::MIN
}

/// The contents rectangle can be computed in `i32`: every value the
/// computation forms lies within its range.
pub open spec fn contents_fits(v: GroupBoxView, size: Size, m: TitleMetrics) -> bool {
    let th = title_row_height(v, m);
    let tm = th / 2;
    let fw = box_frame_width(v);
    let top = fw + th - tm;
    let fh = larger(size.height - tm, 0);
    &&& frame_fits(v, size, m)
    &&& fw + th <= i32::MAX
    &&& tm + top <= i32::MAX
    &&& size.width - 2 * fw >= i32::MIN
    &&& fh - top - fw >= i32::MIN
}

/// The title row (indicator and label together) can be computed in `i32`:
/// the width less the margins, and the title width plus the indicator.
pub open spec fn title_fits(v: GroupBoxView, size: Size, m: TitleMetrics) -> bool {
    let margin: int = if v.flat {
        0
    } else {
        TITLE_MARGIN as int
    };
    &&& metrics_measured(m)
    &&& size.width - 2 * margin >= i32::MIN
    &&& m.title_width + check_width(v) <= i32::MAX
}

/// The label rectangle can be computed in `i32`: the title row, and for a
/// checkable box the label's start after the indicator.
pub open spec fn label_fits(v: GroupBoxView, size: Size, m: TitleMetrics) -> bool {
    &&& title_fits(v, size, m)
    &&& v.checkable ==> spec_title_total(v, size, m).x + check_width(v) <= i32::MAX
}

/// What `hit_test` computes, in the order it asks, can be computed in `i32`:
/// each rectangle it reaches (the indicator, then the label, then the
/// contents and the frame) fits.
pub open spec fn hit_fits(v: GroupBoxView, size: Size, m: TitleMetrics, pos: Point) -> bool {
    let on_check = v.checkable && spec_check_box_rect(v, size, m).spec_contains(pos);
    let on_label = v.title.len() > 0 && spec_label_rect(v, size, m).spec_contains(pos);
    &&& metrics_measured(m)
    &&& v.checkable ==> title_fits(v, size, m)
    &&& !on_check && v.title.len() > 0 ==> label_fits(v, size, m)
    &&& !on_check && !on_label ==> contents_fits(v, size, m)
}

/// The minimum size can be computed in `i32`.
pub open spec fn minimum_size_fits(v: GroupBoxView, m: TitleMetrics) -> bool {
    let w = m.title_width + (if v.checkable {
        INDICATOR_SIZE + INDICATOR_SPACING
    } else {
        0
    });
    let h = if v.checkable {
        larger(m.text_height as int, INDICATOR_SIZE as int)
    } else {
        m.text_height as int
    };
    let margin: int = if v.flat {
        0
    } else {
        TITLE_MARGIN as int
    };
    &&& metrics_measured(m)
    &&& w <= i32::MAX
    &&& w + 2 * margin <= i32::MAX
    &&& h + 2 * box_frame_width(v) <= i32::MAX
}

impl GroupBox {
    fn title_row_height(&self, m: TitleMetrics) -> (r: i64)
        requires
            metrics_measured(m),
        ensures
            r == title_row_height(self@, m),
            0 <= r <= i32::MAX,
    {
        if self.title.as_str().is_empty() && !self.checkable {
            return 0;
        }
        let check: i64 = if self.checkable {
            INDICATOR_SIZE as i64
        } else {
            0
        };
        let th = m.text_height as i64;
        if th >= check {
            th
        } else {
            check
        }
    }

    /// The rectangle the frame is drawn in, for a box of `size`.
    pub fn frame_rect(&self, size: Size, m: TitleMetrics) -> (r: Rect)
        requires
            frame_fits(self@, size, m),
        ensures
            r == spec_frame_rect(self@, size, m),
    {
        let tm = self.title_row_height(m) / 2;
        let h = size.height as i64 - tm;
        Rect { x: 0, y: tm as i32, width: size.width, height: if h >= 0 {
            h as i32
        } else {
            0
        } }
    }

    /// The area for the children, for a box of `size`.
    pub fn contents_rect(&self, size: Size, m: TitleMetrics) -> (r: Rect)
        requires
            contents_fits(self@, size, m),
        ensures
            r == spec_contents_rect(self@, size, m),
    {
        let th = self.title_row_height(m);
        let f = self.frame_rect(size, m);
        let fw: i64 = if self.flat {
            0
        } else {
            2
        };
        let top = fw + th - th / 2;
        let w = f.width as i64 - 2 * fw;
        let h = f.height as i64 - top - fw;
        Rect {
            x: (f.x as i64 + fw) as i32,
            y: (f.y as i64 + top) as i32,
            width: if w >= 0 {
                w as i32
            } else {
                0
            },
            height: if h >= 0 {
                h as i32
            } else {
                0
            },
        }
    }

    fn title_total(&self, size: Size, m: TitleMetrics) -> (r: Rect)
        requires
            title_fits(self@, size, m),
        ensures
            r == spec_title_total(self@, size, m),
            0 <= r.width,
            0 <= r.height,
            r.width <= m.title_width + check_width(self@),
            r.height >= m.text_height,
            self@.checkable ==> r.height >= INDICATOR_SIZE,
    {
        let margin: i64 = if self.flat {
            0
        } else {
            TITLE_MARGIN as i64
        };
        let check: i64 = if self.checkable {
            INDICATOR_SIZE as i64
        } else {
            0
        };
        let th = m.text_height as i64;
        let h = if th >= check {
            th
        } else {
            check
        };
        let aw = size.width as i64 - 2 * margin;
        let avail = if aw >= 0 {
            aw
        } else {
            0
        };
        let cw: i64 = if self.checkable {
            (INDICATOR_SIZE + INDICATOR_SPACING - 1) as i64
        } else {
            0
        };
        let want = m.title_width as i64 + cw;
        let total_w = if want < avail {
            want
        } else {
            avail
        };
        let x = match self.alignment {
            Alignment::Left => margin,
            Alignment::Center => margin + (avail - total_w) / 2,
            Alignment::Right => margin + avail - total_w,
        };
        Rect { x: x as i32, y: 0, width: total_w as i32, height: h as i32 }
    }

    /// The check indicator's rectangle; empty when not checkable.
    pub fn check_box_rect(&self, size: Size, m: TitleMetrics) -> (r: Rect)
        requires
            self@.checkable ==> title_fits(self@, size, m),
        ensures
            r == spec_check_box_rect(self@, size, m),
    {
        if !self.checkable {
            return Rect { x: 0, y: 0, width: 0, height: 0 };
        }
        let t = self.title_total(size, m);
        Rect { x: t.x, y: t.y + (t.height - INDICATOR_SIZE) / 2, width: INDICATOR_SIZE, height: INDICATOR_SIZE }
    }

    /// The title label's rectangle.
    pub fn label_rect(&self, size: Size, m: TitleMetrics) -> (r: Rect)
        requires
            label_fits(self@, size, m),
        ensures
            r == spec_label_rect(self@, size, m),
    {
        let t = self.title_total(size, m);
        if !self.checkable {
            return t;
        }
        let cw = INDICATOR_SIZE + INDICATOR_SPACING - 1;
        let w = t.width - cw;
        Rect {
            x: t.x + cw - 2,
            y: t.y + (t.height - m.text_height) / 2,
            width: if w >= 0 {
                w
            } else {
                0
            },
            height: m.text_height,
        }
    }

    /// The part of the box under `pos` (`hitTestComplexControl`).
    pub fn hit_test(&self, pos: Point, size: Size, m: TitleMetrics) -> (r: GroupBoxSubControl)
        requires
            hit_fits(self@, size, m, pos),
        ensures
            r == spec_hit_test(self@, size, m, pos),
    {
        if self.checkable && self.check_box_rect(size, m).contains(pos) {
            GroupBoxSubControl::CheckBox
        } else if !self.title.as_str().is_empty() && self.label_rect(size, m).contains(pos) {
            GroupBoxSubControl::Label
        } else if self.contents_rect(size, m).contains(pos) {
            GroupBoxSubControl::Contents
        } else if self.frame_rect(size, m).contains(pos) {
            GroupBoxSubControl::Frame
        } else {
            GroupBoxSubControl::NoSubControl
        }
    }

    /// Whether `pos` lies on the indicator or the label, where presses
    /// toggle a checkable box.
    pub fn is_title_control(&self, pos: Point, size: Size, m: TitleMetrics) -> (r: bool)
        requires
            hit_fits(self@, size, m, pos),
        ensures
            r == (spec_hit_test(self@, size, m, pos) == GroupBoxSubControl::CheckBox || spec_hit_test(
                self@,
                size,
                m,
                pos,
            ) == GroupBoxSubControl::Label),
    {
        let h = self.hit_test(pos, size, m);
        h == GroupBoxSubControl::CheckBox || h == GroupBoxSubControl::Label
    }

    /// The smallest size: room for the title (and indicator) plus margins and frame.
    pub fn minimum_size_hint(&self, m: TitleMetrics) -> (r: Size)
        requires
            minimum_size_fits(self@, m),
        ensures
            r == (Size {
                width: (m.title_width + (if self@.checkable {
                    INDICATOR_SIZE + INDICATOR_SPACING
                } else {
                    0
                }) + 2 * (if self@.flat {
                    0
                } else {
                    TITLE_MARGIN as int
                })) as i32,
                height: ((if self@.checkable {
                    larger(m.text_height as int, INDICATOR_SIZE as int)
                } else {
                    m.text_height as int
                }) + 2 * box_frame_width(self@)) as i32,
            }),
    {
        let mut width = m.title_width;
        let mut height = m.text_height;
        if self.checkable {
            width = width + INDICATOR_SIZE + INDICATOR_SPACING;
            height = if height >= INDICATOR_SIZE {
                height
            } else {
                INDICATOR_SIZE
            };
        }
        let margin = if self.flat {
            0
        } else {
            TITLE_MARGIN
        };
        let fw = if self.flat {
            0
        } else {
            2
        };
        Size { width: width + 2 * margin, height: height + 2 * fw }
    }
}

} // verus!
