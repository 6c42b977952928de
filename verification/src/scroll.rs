//! Scroll bars and scroll areas (`QScrollBar`, `QScrollArea`): the value
//! within its range, paging and wheel steps, and which bars a scroll area
//! shows for its content.

use vstd::prelude::*;

use crate::geometry::{Rect, Size};

verus! {

/// Layout direction of sliders and scroll bars (`Qt::Orientation`).
#[derive(Debug, Clone, Copy, PartialEq, Eq, Structural)]
pub enum Orientation {
    Horizontal,
    Vertical,
}

/// When a scroll area shows a scroll bar (`Qt::ScrollBarPolicy`).
#[derive(Debug, Clone, Copy, PartialEq, Eq, Structural)]
pub enum ScrollBarPolicy {
    AsNeeded,
    AlwaysOn,
    AlwaysOff,
}

impl Default for ScrollBarPolicy {
    fn default() -> (r: ScrollBarPolicy)
        ensures
            r == ScrollBarPolicy::AsNeeded,
    {
        ScrollBarPolicy::AsNeeded
    }
}

/// `v` brought into `[lo, hi]`.
pub open spec fn clamp_to(v: int, lo: int, hi: int) -> int {
    if v < lo {
        lo
    } else if v > hi {
        hi
    } else {
        v
    }
}

/// A scroll bar as plain values.
pub struct ScrollBarView {
    pub orientation: Orientation,
    pub minimum: int,
    pub maximum: int,
    pub value: int,
    pub page_step: int,
    pub single_step: int,
    pub dragging: bool,
    pub drag_start_coord: int,
    pub drag_start_value: int,
    pub visible: bool,
    pub geometry: Rect,
}

/// The states a scroll bar keeps: the value within the range, steps of at
/// least one.
pub open spec fn scroll_bar_wf(s: ScrollBarView) -> bool {
    &&& s.minimum <= s.value <= s.maximum
    &&& 1 <= s.page_step
    &&& 1 <= s.single_step
    &&& i32::MIN <= s.minimum
    &&& s.maximum <= i32::MAX
    &&& s.page_step <= i32::MAX
    &&& s.single_step <= i32::MAX
}

/// `setValue`: the value brought into the range.
pub open spec fn spec_bar_set_value(s: ScrollBarView, v: int) -> ScrollBarView {
    ScrollBarView { value: clamp_to(v, s.minimum, s.maximum), ..s }
}

/// `setRange`: the maximum is at least the minimum, and the value moves into
/// the new range.
pub open spec fn spec_bar_set_range(s: ScrollBarView, min: int, max: int) -> ScrollBarView {
    let hi = if max > min {
        max
    } else {
        min
    };
    spec_bar_set_value(ScrollBarView { minimum: min, maximum: hi, ..s }, s.value)
}

/// A left press at `coord` along the bar, whose thumb spans `thumb_offset`
/// to `thumb_offset + thumb_len`: on the thumb a drag starts, before it the
/// value goes back a page, after it forward a page.
pub open spec fn spec_bar_press(s: ScrollBarView, coord: int, button: u32, thumb_offset: int, thumb_len: int) -> ScrollBarView {
    if button != 1 {
        s
    } else if thumb_offset <= coord <= thumb_offset + thumb_len {
        ScrollBarView { dragging: true, drag_start_coord: coord, drag_start_value: s.value, ..s }
    } else if coord < thumb_offset {
        spec_bar_set_value(s, s.value - s.page_step)
    } else {
        spec_bar_set_value(s, s.value + s.page_step)
    }
}

/// The wheel turned by `delta_y`: three single steps back (turned away) or forward.
pub open spec fn spec_bar_wheel(s: ScrollBarView, delta_y: i32) -> ScrollBarView {
    spec_bar_set_value(
        s,
        if delta_y > 0 {
            s.value - 3 * s.single_step
        } else {
            s.value + 3 * s.single_step
        },
    )
}

/// A fresh bar: visible, ranging from 0 to 100 at 0, page step 10, single
/// step 1, 100 by 10 (horizontal) or 10 by 100 (vertical).
pub open spec fn fresh_bar(orientation: Orientation) -> ScrollBarView {
    ScrollBarView {
        orientation,
        minimum: 0,
        maximum: 100,
        value: 0,
        page_step: 10,
        single_step: 1,
        dragging: false,
        drag_start_coord: 0,
        drag_start_value: 0,
        visible: true,
        geometry: match orientation {
            Orientation::Horizontal => Rect { x: 0, y: 0, width: 100, height: 10 },
            Orientation::Vertical => Rect { x: 0, y: 0, width: 10, height: 100 },
        },
    }
}

/// A scroll bar: value, range, steps, drag state and placement.
pub struct ScrollBar {
    orientation: Orientation,
    minimum: i32,
    maximum: i32,
    value: i32,
    page_step: i32,
    single_step: i32,
    dragging: bool,
    drag_start_coord: i32,
    drag_start_value: i32,
    visible: bool,
    geometry: Rect,
}

impl View for ScrollBar {
    type V = ScrollBarView;

    closed spec fn view(&self) -> ScrollBarView {
        ScrollBarView {
            orientation: self.orientation,
            minimum: self.minimum as int,
            maximum: self.maximum as int,
            value: self.value as int,
            page_step: self.page_step as int,
            single_step: self.single_step as int,
            dragging: self.dragging,
            drag_start_coord: self.drag_start_coord as int,
            drag_start_value: self.drag_start_value as int,
            visible: self.visible,
            geometry: self.geometry,
        }
    }
}

/// The bar's extent along its orientation.
pub open spec fn bar_length(s: ScrollBarView) -> int {
    match s.orientation {
        Orientation::Horizontal => s.geometry.width as int,
        Orientation::Vertical => s.geometry.height as int,
    }
}

impl ScrollBar {
    /// The invariant of the scroll bar.
    pub open spec fn wf(&self) -> bool {
        scroll_bar_wf(self@)
    }

    /// A fresh bar ([`fresh_bar`]).
    pub fn new(orientation: Orientation) -> (r: ScrollBar)
        ensures
            r.wf(),
            r@ == fresh_bar(orientation),
    {
        let geometry = match orientation {
            Orientation::Horizontal => Rect::new(0, 0, 100, 10),
            Orientation::Vertical => Rect::new(0, 0, 10, 100),
        };
        ScrollBar {
            orientation,
            minimum: 0,
            maximum: 100,
            value: 0,
            page_step: 10,
            single_step: 1,
            dragging: false,
            drag_start_coord: 0,
            drag_start_value: 0,
            visible: true,
            geometry,
        }
    }

    pub fn orientation(&self) -> (r: Orientation)
        ensures
            r == self@.orientation,
    {
        self.orientation
    }

    pub fn minimum(&self) -> (r: i32)
        ensures
            r == self@.minimum,
    {
        self.minimum
    }

    pub fn maximum(&self) -> (r: i32)
        ensures
            r == self@.maximum,
    {
        self.maximum
    }

    pub fn value(&self) -> (r: i32)
        ensures
            r == self@.value,
    {
        self.value
    }

    pub fn page_step(&self) -> (r: i32)
        ensures
            r == self@.page_step,
    {
        self.page_step
    }

    pub fn single_step(&self) -> (r: i32)
        ensures
            r == self@.single_step,
    {
        self.single_step
    }

    pub fn is_dragging(&self) -> (r: bool)
        ensures
            r == self@.dragging,
    {
        self.dragging
    }

    pub fn is_visible(&self) -> (r: bool)
        ensures
            r == self@.visible,
    {
        self.visible
    }

    pub fn set_visible(&mut self, visible: bool)
        requires
            old(self).wf(),
        ensures
            final(self).wf(),
            final(self)@ == (ScrollBarView { visible, ..old(self)@ }),
    {
        self.visible = visible;
    }

    pub fn geometry(&self) -> (r: Rect)
        ensures
            r == self@.geometry,
    {
        self.geometry
    }

    pub fn set_geometry(&mut self, rect: Rect)
        requires
            old(self).wf(),
        ensures
            final(self).wf(),
            final(self)@ == (ScrollBarView { geometry: rect, ..old(self)@ }),
    {
        self.geometry = rect;
    }

    /// The preferred size: 100 by 10, or 10 by 100 when vertical.
    pub fn size_hint(&self) -> (r: Size)
        ensures
            r == match self@.orientation {
                Orientation::Horizontal => Size { width: 100, height: 10 },
                Orientation::Vertical => Size { width: 10, height: 100 },
            },
    {
        match self.orientation {
            Orientation::Horizontal => Size::new(100, 10),
            Orientation::Vertical => Size::new(10, 100),
        }
    }

    /// Sets the value, brought into the range; returns whether it changed.
    pub fn set_value(&mut self, val: i32) -> (changed: bool)
        requires
            old(self).wf(),
        ensures
            final(self).wf(),
            final(self)@ == spec_bar_set_value(old(self)@, val as int),
            changed == (final(self)@.value != old(self)@.value),
    {
        let c = if val < self.minimum {
            self.minimum
        } else if val > self.maximum {
            self.maximum
        } else {
            val
        };
        if self.value != c {
            self.value = c;
            true
        } else {
            false
        }
    }

    /// Sets the range ([`spec_bar_set_range`]).
    pub fn set_range(&mut self, min: i32, max: i32)
        requires
            old(self).wf(),
        ensures
            final(self).wf(),
            final(self)@ == spec_bar_set_range(old(self)@, min as int, max as int),
    {
        let hi = if max > min {
            max
        } else {
            min
        };
        let v = if self.value < min {
            min
        } else if self.value > hi {
            hi
        } else {
            self.value
        };
        self.minimum = min;
        self.maximum = hi;
        self.value = v;
    }

    /// Sets the page step, at least one.
    pub fn set_page_step(&mut self, step: i32)
        requires
            old(self).wf(),
        ensures
            final(self).wf(),
            final(self)@ == (ScrollBarView {
                page_step: if step > 1 {
                    step as int
                } else {
                    1
                },
                ..old(self)@
            }),
    {
        self.page_step = if step > 1 {
            step
        } else {
            1
        };
    }

    /// Sets the single step, at least one.
    pub fn set_single_step(&mut self, step: i32)
        requires
            old(self).wf(),
        ensures
            final(self).wf(),
            final(self)@ == (ScrollBarView {
                single_step: if step > 1 {
                    step as int
                } else {
                    1
                },
                ..old(self)@
            }),
    {
        self.single_step = if step > 1 {
            step
        } else {
            1
        };
    }

    /// A mouse button goes down at `coord` along the bar; the thumb spans
    /// `thumb_offset` to `thumb_offset + thumb_len` ([`spec_bar_press`]).
    pub fn mouse_press_event(&mut self, coord: i32, button: u32, thumb_offset: i32, thumb_len: i32)
        requires
            old(self).wf(),
            i32::MIN <= old(self)@.value - old(self)@.page_step,
            old(self)@.value + old(self)@.page_step <= i32::MAX,
            i32::MIN <= thumb_offset + thumb_len <= i32::MAX,
        ensures
            final(self).wf(),
            final(self)@ == spec_bar_press(old(self)@, coord as int, button, thumb_offset as int, thumb_len as int),
    {
        if button != 1 {
            return;
        }
        if coord >= thumb_offset && coord <= thumb_offset + thumb_len {
            self.dragging = true;
            self.drag_start_coord = coord;
            self.drag_start_value = self.value;
        } else if coord < thumb_offset {
            let v = self.value - self.page_step;
            self.set_value(v);
        } else {
            let v = self.value + self.page_step;
            self.set_value(v);
        }
    }

    /// A mouse button goes up: the left button ends a drag.
    pub fn mouse_release_event(&mut self, button: u32)
        requires
            old(self).wf(),
        ensures
            final(self).wf(),
            final(self)@ == if button == 1 {
                ScrollBarView { dragging: false, ..old(self)@ }
            } else {
                old(self)@
            },
    {
        if button == 1 {
            self.dragging = false;
        }
    }

    /// The pointer moves during a drag: the value becomes the value at the
    /// start of the drag moved by `delta_value`, the value change that the
    /// pointer's travel stands for along the track.
    pub fn drag_to(&mut self, delta_value: i32)
        requires
            old(self).wf(),
            i32::MIN <= old(self)@.drag_start_value + delta_value <= i32::MAX,
        ensures
            final(self).wf(),
            final(self)@ == if old(self)@.dragging {
                spec_bar_set_value(old(self)@, old(self)@.drag_start_value + delta_value)
            } else {
                old(self)@
            },
    {
        if !self.dragging {
            return;
        }
        let v = self.drag_start_value + delta_value;
        self.set_value(v);
    }

    /// The wheel turns by `delta_y` ([`spec_bar_wheel`]).
    pub fn wheel_event(&mut self, delta_y: i32)
        requires
            old(self).wf(),
            i32::MIN <= old(self)@.value - 3 * old(self)@.single_step,
            old(self)@.value + 3 * old(self)@.single_step <= i32::MAX,
        ensures
            final(self).wf(),
            final(self)@ == spec_bar_wheel(old(self)@, delta_y),
    {
        let v = if delta_y > 0 {
            self.value - self.single_step * 3
        } else {
            self.value + self.single_step * 3
        };
        self.set_value(v);
    }
}

/// Width of the scroll bars of a scroll area.
pub const SCROLL_BAR_SIZE: i32 = 10;

/// The size of the content: the larger of the child's extent and its
/// preferred size, in each direction.
pub open spec fn content_size_of(geometry: Size, hint: Size) -> Size {
    Size {
        width: if geometry.width > hint.width {
            geometry.width
        } else {
            hint.width
        },
        height: if geometry.height > hint.height {
            geometry.height
        } else {
            hint.height
        },
    }
}

/// Which bars a scroll area of size `area` shows for content of size
/// `content`, and the view left beside them: (vertical shown, horizontal
/// shown, view width, view height). The vertical bar is decided first, on
/// the full height; the horizontal one on the width the vertical bar leaves.
pub open spec fn bar_layout(area: Rect, content: Size, h: ScrollBarPolicy, v: ScrollBarPolicy) -> (bool, bool, int, int) {
    let show_v = match v {
        ScrollBarPolicy::AlwaysOn => true,
        ScrollBarPolicy::AlwaysOff => false,
        ScrollBarPolicy::AsNeeded => content.height > area.height,
    };
    let view_w = if show_v {
        area.width - SCROLL_BAR_SIZE
    } else {
        area.width as int
    };
    let show_h = match h {
        ScrollBarPolicy::AlwaysOn => true,
        ScrollBarPolicy::AlwaysOff => false,
        ScrollBarPolicy::AsNeeded => content.width > view_w,
    };
    let view_h = if show_h {
        area.height - SCROLL_BAR_SIZE
    } else {
        area.height as int
    };
    (show_v, show_h, view_w, view_h)
}

/// A scroll area as plain values.
pub struct ScrollAreaView {
    pub geometry: Rect,
    pub h_bar: ScrollBarView,
    pub v_bar: ScrollBarView,
    pub h_policy: ScrollBarPolicy,
    pub v_policy: ScrollBarPolicy,
    pub scroll_x: int,
    pub scroll_y: int,
}

/// The states a scroll area keeps: two valid bars counting from 0.
pub open spec fn scroll_area_wf(a: ScrollAreaView) -> bool {
    &&& scroll_bar_wf(a.h_bar)
    &&& scroll_bar_wf(a.v_bar)
    &&& a.h_bar.minimum == 0
    &&& a.v_bar.minimum == 0
    &&& 0 <= a.scroll_x <= i32::MAX
    &&& 0 <= a.scroll_y <= i32::MAX
    &&& a.h_bar.single_step == 1
    &&& a.v_bar.single_step == 1
}

/// One bar after `updateScrollbars`: shown or hidden, and when shown placed
/// at `rect`, ranging to what the content exceeds the view by, paging by the view.
pub open spec fn bar_after_update(b: ScrollBarView, show: bool, rect: Rect, excess: int, page: int) -> ScrollBarView {
    let b1 = ScrollBarView { visible: show, ..b };
    if show {
        let b2 = spec_bar_set_range(ScrollBarView { geometry: rect, ..b1 }, 0, if excess > 0 {
            excess
        } else {
            0
        });
        ScrollBarView {
            page_step: if page > 1 {
                page
            } else {
                1
            },
            ..b2
        }
    } else {
        b1
    }
}

/// `updateScrollbars` for content of size `content` (`None` without a
/// child): a scroll area with an empty extent changes nothing; otherwise the
/// bars are shown by the policies, sized and ranged, and the scroll
/// position follows their values.
pub open spec fn spec_update_bars(a: ScrollAreaView, content: Option<Size>) -> ScrollAreaView {
    let g = a.geometry;
    if g.width <= 0 || g.height <= 0 {
        a
    } else {
        let c = match content {
            Some(s) => s,
            None => Size { width: 0, height: 0 },
        };
        let (show_v, show_h, view_w, view_h) = bar_layout(g, c, a.h_policy, a.v_policy);
        let v_bar = bar_after_update(
            a.v_bar,
            show_v,
            Rect { x: (g.width - SCROLL_BAR_SIZE) as i32, y: 0, width: SCROLL_BAR_SIZE, height: view_h as i32 },
            c.height - view_h,
            view_h,
        );
        let h_bar = bar_after_update(
            a.h_bar,
            show_h,
            Rect { x: 0, y: (g.height - SCROLL_BAR_SIZE) as i32, width: view_w as i32, height: SCROLL_BAR_SIZE },
            c.width - view_w,
            view_w,
        );
        ScrollAreaView { v_bar, h_bar, scroll_x: h_bar.value, scroll_y: v_bar.value, ..a }
    }
}

/// Where the child of size `content` goes once the bars follow it: nowhere
/// without a child or when the area has no extent ([`child_rect_after_update`]).
pub open spec fn child_placement(v: ScrollAreaView, content: Option<Size>) -> Option<Rect> {
    match content {
        Some(c) => if v.geometry.width > 0 && v.geometry.height > 0 {
            Some(child_rect_after_update(v, c))
        } else {
            None
        },
        None => None,
    }
}

/// Where the child goes after `updateScrollbars`: shifted by the scroll
/// position, at least as large as the view.
pub open spec fn child_rect_after_update(a: ScrollAreaView, content: Size) -> Rect {
    let (_, _, view_w, view_h) = bar_layout(a.geometry, content, a.h_policy, a.v_policy);
    let b = spec_update_bars(a, Some(content));
    Rect {
        x: (-b.scroll_x) as i32,
        y: (-b.scroll_y) as i32,
        width: (if content.width > view_w {
            content.width as int
        } else {
            view_w
        }) as i32,
        height: (if content.height > view_h {
            content.height as int
        } else {
            view_h
        }) as i32,
    }
}

/// Content sizes a scroll area computes on without overflow.
pub open spec fn content_fits(c: Size) -> bool {
    0 <= c.width <= i32::MAX - SCROLL_BAR_SIZE && 0 <= c.height <= i32::MAX - SCROLL_BAR_SIZE
}

/// A scroll area: its extent, the two bars, their policies and the scroll position.
pub struct ScrollArea {
    geometry: Rect,
    h_bar: ScrollBar,
    v_bar: ScrollBar,
    h_policy: ScrollBarPolicy,
    v_policy: ScrollBarPolicy,
    scroll_x: i32,
    scroll_y: i32,
}

impl View for ScrollArea {
    type V = ScrollAreaView;

    closed spec fn view(&self) -> ScrollAreaView {
        ScrollAreaView {
            geometry: self.geometry,
            h_bar: self.h_bar@,
            v_bar: self.v_bar@,
            h_policy: self.h_policy,
            v_policy: self.v_policy,
            scroll_x: self.scroll_x as int,
            scroll_y: self.scroll_y as int,
        }
    }
}

impl ScrollArea {
    /// The invariant of the scroll area.
    pub open spec fn wf(&self) -> bool {
        scroll_area_wf(self@)
    }

    /// A scroll area without extent, with fresh bars shown as needed, at the origin.
    pub fn new() -> (r: ScrollArea)
        ensures
            r.wf(),
            r@.geometry == (Rect { x: 0, y: 0, width: 0, height: 0 }),
            r@.h_bar == fresh_bar(Orientation::Horizontal),
            r@.v_bar == fresh_bar(Orientation::Vertical),
            r@.h_policy == ScrollBarPolicy::AsNeeded,
            r@.v_policy == ScrollBarPolicy::AsNeeded,
            r@.scroll_x == 0,
            r@.scroll_y == 0,
    {
        ScrollArea {
            geometry: Rect::new(0, 0, 0, 0),
            h_bar: ScrollBar::new(Orientation::Horizontal),
            v_bar: ScrollBar::new(Orientation::Vertical),
            h_policy: ScrollBarPolicy::AsNeeded,
            v_policy: ScrollBarPolicy::AsNeeded,
            scroll_x: 0,
            scroll_y: 0,
        }
    }

    pub fn horizontal_scroll_bar(&self) -> (r: &ScrollBar)
        ensures
            r@ == self@.h_bar,
    {
        &self.h_bar
    }

    pub fn vertical_scroll_bar(&self) -> (r: &ScrollBar)
        ensures
            r@ == self@.v_bar,
    {
        &self.v_bar
    }

    /// The horizontal bar, to change; the area keeps its invariant only
    /// while the bar starts at 0 and steps by 1.
    pub fn horizontal_scroll_bar_mut(&mut self) -> (r: &mut ScrollBar)
        ensures
            r@ == old(self)@.h_bar,
            final(self)@ == (ScrollAreaView { h_bar: final(r)@, ..old(self)@ }),
    {
        &mut self.h_bar
    }

    /// The vertical bar, to change; the area keeps its invariant only while
    /// the bar starts at 0 and steps by 1.
    pub fn vertical_scroll_bar_mut(&mut self) -> (r: &mut ScrollBar)
        ensures
            r@ == old(self)@.v_bar,
            final(self)@ == (ScrollAreaView { v_bar: final(r)@, ..old(self)@ }),
    {
        &mut self.v_bar
    }

    pub fn geometry(&self) -> (r: Rect)
        ensures
            r == self@.geometry,
    {
        self.geometry
    }

    /// The scroll position, as a point.
    pub fn scroll_position(&self) -> (r: crate::geometry::Point)
        ensures
            r.x == self@.scroll_x,
            r.y == self@.scroll_y,
    {
        crate::geometry::Point::new(self.scroll_x, self.scroll_y)
    }

    /// The preferred size, 200 by 200.
    pub fn size_hint(&self) -> (r: Size)
        ensures
            r == (Size { width: 200, height: 200 }),
    {
        Size::new(200, 200)
    }

    /// The content size for a child with extent `geometry` and preferred
    /// size `hint` ([`content_size_of`]).
    pub fn content_size(geometry: Size, hint: Size) -> (r: Size)
        ensures
            r == content_size_of(geometry, hint),
    {
        Size::new(
            if geometry.width > hint.width {
                geometry.width
            } else {
                hint.width
            },
            if geometry.height > hint.height {
                geometry.height
            } else {
                hint.height
            },
        )
    }

    /// The view inside the scroll area, without the shown bars.
    pub fn viewport_rect(&self) -> (r: Rect)
        requires
            self.wf(),
        ensures
            r == (Rect {
                x: 0,
                y: 0,
                width: (if self@.v_bar.visible {
                    if self@.geometry.width - SCROLL_BAR_SIZE > 0 {
                        self@.geometry.width - SCROLL_BAR_SIZE
                    } else {
                        0
                    }
                } else {
                    self@.geometry.width as int
                }) as i32,
                height: (if self@.h_bar.visible {
                    if self@.geometry.height - SCROLL_BAR_SIZE > 0 {
                        self@.geometry.height - SCROLL_BAR_SIZE
                    } else {
                        0
                    }
                } else {
                    self@.geometry.height as int
                }) as i32,
            }),
    {
        let g = self.geometry;
        let w: i32 = if self.v_bar.is_visible() {
            if g.width as i64 - SCROLL_BAR_SIZE as i64 > 0 {
                g.width - SCROLL_BAR_SIZE
            } else {
                0
            }
        } else {
            g.width
        };
        let h: i32 = if self.h_bar.is_visible() {
            if g.height as i64 - SCROLL_BAR_SIZE as i64 > 0 {
                g.height - SCROLL_BAR_SIZE
            } else {
                0
            }
        } else {
            g.height
        };
        Rect::new(0, 0, w, h)
    }

    fn update_bar(bar: &mut ScrollBar, show: bool, rect: Rect, excess: i64, page: i32)
        requires
            old(bar).wf(),
            old(bar)@.minimum == 0,
            old(bar)@.single_step == 1,
            excess <= i32::MAX,
        ensures
            final(bar).wf(),
            final(bar)@ == bar_after_update(old(bar)@, show, rect, excess as int, page as int),
            final(bar)@.minimum == 0,
            final(bar)@.single_step == 1,
    {
        bar.set_visible(show);
        if show {
            bar.set_geometry(rect);
            let m: i32 = if excess > 0 {
                excess as i32
            } else {
                0
            };
            bar.set_range(0, m);
            bar.set_page_step(page);
        }
    }

    /// Which bars show and the view beside them ([`bar_layout`]).
    fn layout_bars(&self, c: Size) -> (r: (bool, bool, i32, i32))
        requires
            self.wf(),
            self@.geometry.width > 0,
            self@.geometry.height > 0,
        ensures
            (r.0, r.1, r.2 as int, r.3 as int) == bar_layout(self@.geometry, c, self@.h_policy, self@.v_policy),
            r.2 >= self@.geometry.width - SCROLL_BAR_SIZE,
            r.3 >= self@.geometry.height - SCROLL_BAR_SIZE,
            r.2 <= self@.geometry.width,
            r.3 <= self@.geometry.height,
    {
        let g = self.geometry;
        let show_v = match self.v_policy {
            ScrollBarPolicy::AlwaysOn => true,
            ScrollBarPolicy::AlwaysOff => false,
            ScrollBarPolicy::AsNeeded => c.height > g.height,
        };
        let view_w: i32 = if show_v {
            g.width - SCROLL_BAR_SIZE
        } else {
            g.width
        };
        let show_h = match self.h_policy {
            ScrollBarPolicy::AlwaysOn => true,
            ScrollBarPolicy::AlwaysOff => false,
            ScrollBarPolicy::AsNeeded => c.width > view_w,
        };
        let view_h: i32 = if show_h {
            g.height - SCROLL_BAR_SIZE
        } else {
            g.height
        };
        (show_v, show_h, view_w, view_h)
    }

    /// `updateScrollbars` for content of size `content` ([`spec_update_bars`]);
    /// returns where the child goes, when there is one and the area has an
    /// extent ([`child_rect_after_update`]).
    #[verifier::rlimit(40)]
    pub fn update_scrollbars(&mut self, content: Option<Size>) -> (r: Option<Rect>)
        requires
            old(self).wf(),
            content matches Some(c) ==> content_fits(c),
        ensures
            final(self).wf(),
            final(self)@ == spec_update_bars(old(self)@, content),
            r == child_placement(old(self)@, content),
    {
        let g = self.geometry;
        if g.width <= 0 || g.height <= 0 {
            return None;
        }
        let c = match content {
            Some(s) => s,
            None => Size::new(0, 0),
        };
        let (show_v, show_h, view_w, view_h) = self.layout_bars(c);
        ScrollArea::update_bar(
            &mut self.v_bar,
            show_v,
            Rect::new(g.width - SCROLL_BAR_SIZE, 0, SCROLL_BAR_SIZE, view_h),
            c.height as i64 - view_h as i64,
            view_h,
        );
        ScrollArea::update_bar(
            &mut self.h_bar,
            show_h,
            Rect::new(0, g.height - SCROLL_BAR_SIZE, view_w, SCROLL_BAR_SIZE),
            c.width as i64 - view_w as i64,
            view_w,
        );
        self.scroll_x = self.h_bar.value();
        self.scroll_y = self.v_bar.value();
        match content {
            Some(s) => {
                let cw = if s.width > view_w {
                    s.width
                } else {
                    view_w
                };
                let ch = if s.height > view_h {
                    s.height
                } else {
                    view_h
                };
                Some(Rect::new(-self.scroll_x, -self.scroll_y, cw, ch))
            },
            None => None,
        }
    }

    /// Places the scroll area; the bars follow for content of size
    /// `content` when the extent changed. Returns where the child goes, if it moved.
    pub fn set_geometry(&mut self, rect: Rect, content: Option<Size>) -> (r: Option<Rect>)
        requires
            old(self).wf(),
            content matches Some(c) ==> content_fits(c),
        ensures
            final(self).wf(),
            rect == old(self)@.geometry ==> final(self)@ == old(self)@ && r is None,
            rect != old(self)@.geometry ==> final(self)@ == spec_update_bars(
                ScrollAreaView { geometry: rect, ..old(self)@ },
                content,
            ),
            rect != old(self)@.geometry ==> r == child_placement(
                ScrollAreaView { geometry: rect, ..old(self)@ },
                content,
            ),
    {
        if rect == self.geometry {
            return None;
        }
        self.geometry = rect;
        self.update_scrollbars(content)
    }

    /// Sets the horizontal bar's policy; the bars follow for content of size `content`.
    pub fn set_horizontal_scrollbar_policy(&mut self, policy: ScrollBarPolicy, content: Option<Size>) -> (r: Option<Rect>)
        requires
            old(self).wf(),
            content matches Some(c) ==> content_fits(c),
        ensures
            final(self).wf(),
            final(self)@ == spec_update_bars(ScrollAreaView { h_policy: policy, ..old(self)@ }, content),
            r == child_placement(ScrollAreaView { h_policy: policy, ..old(self)@ }, content),
    {
        self.h_policy = policy;
        self.update_scrollbars(content)
    }

    /// Sets the vertical bar's policy; the bars follow for content of size `content`.
    pub fn set_vertical_scrollbar_policy(&mut self, policy: ScrollBarPolicy, content: Option<Size>) -> (r: Option<Rect>)
        requires
            old(self).wf(),
            content matches Some(c) ==> content_fits(c),
        ensures
            final(self).wf(),
            final(self)@ == spec_update_bars(ScrollAreaView { v_policy: policy, ..old(self)@ }, content),
            r == child_placement(ScrollAreaView { v_policy: policy, ..old(self)@ }, content),
    {
        self.v_policy = policy;
        self.update_scrollbars(content)
    }

    /// Scrolls to (`x`, `y`), each brought into its bar's range; returns the
    /// child's new place for a child of size `child`, if there is one.
    pub fn set_scroll_position(&mut self, x: i32, y: i32, child: Option<Size>) -> (r: Option<Rect>)
        requires
            old(self).wf(),
        ensures
            final(self).wf(),
            final(self)@ == ({
                let h = spec_bar_set_value(old(self)@.h_bar, x as int);
                let v = spec_bar_set_value(old(self)@.v_bar, y as int);
                ScrollAreaView { h_bar: h, v_bar: v, scroll_x: h.value, scroll_y: v.value, ..old(self)@ }
            }),
            r == match child {
                Some(s) => Some(
                    Rect {
                        x: (-final(self)@.scroll_x) as i32,
                        y: (-final(self)@.scroll_y) as i32,
                        width: s.width,
                        height: s.height,
                    },
                ),
                None => None,
            },
    {
        self.h_bar.set_value(x);
        self.v_bar.set_value(y);
        self.scroll_x = self.h_bar.value();
        self.scroll_y = self.v_bar.value();
        match child {
            Some(s) => Some(Rect::new(-self.scroll_x, -self.scroll_y, s.width, s.height)),
            None => None,
        }
    }

    /// The wheel turns by `delta_y`: with Shift the horizontal bar takes it,
    /// otherwise the vertical one; returns the child's new place for a child
    /// of size `child`.
    pub fn wheel_event(&mut self, delta_y: i32, modifiers: u32, child: Option<Size>) -> (r: Option<Rect>)
        requires
            old(self).wf(),
            old(self)@.h_bar.value + 3 <= i32::MAX,
            old(self)@.v_bar.value + 3 <= i32::MAX,
        ensures
            final(self).wf(),
            final(self)@ == (if modifiers & 0x0200_0000 != 0 || modifiers & 1 != 0 {
                let h = spec_bar_wheel(old(self)@.h_bar, delta_y);
                ScrollAreaView { h_bar: h, scroll_x: h.value, ..old(self)@ }
            } else {
                let v = spec_bar_wheel(old(self)@.v_bar, delta_y);
                ScrollAreaView { v_bar: v, scroll_y: v.value, ..old(self)@ }
            }),
            r == match child {
                Some(s) => Some(
                    Rect {
                        x: (-final(self)@.scroll_x) as i32,
                        y: (-final(self)@.scroll_y) as i32,
                        width: s.width,
                        height: s.height,
                    },
                ),
                None => None,
            },
    {
        if modifiers & 0x0200_0000 != 0 || modifiers & 1 != 0 {
            self.h_bar.wheel_event(delta_y);
            self.scroll_x = self.h_bar.value();
        } else {
            self.v_bar.wheel_event(delta_y);
            self.scroll_y = self.v_bar.value();
        }
        match child {
            Some(s) => Some(Rect::new(-self.scroll_x, -self.scroll_y, s.width, s.height)),
            None => None,
        }
    }
}

} // verus!
