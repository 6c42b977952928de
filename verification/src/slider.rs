//! Range-based slider logic (`QAbstractSlider`, `QSlider`): the committed value,
//! the visual position, stepping and pixel conversions.

use vstd::prelude::*;

use crate::geometry::{Point, Rect, Size};
use crate::input_keys;
use crate::scroll::Orientation;

verus! {

/// Actions that can be triggered on a slider (`QAbstractSlider::SliderAction`).
#[derive(Debug, Clone, Copy, PartialEq, Eq, Structural)]
pub enum SliderAction {
    NoAction,
    SingleStepAdd,
    SingleStepSub,
    PageStepAdd,
    PageStepSub,
    ToMinimum,
    ToMaximum,
    Move,
}

impl Default for SliderAction {
    fn default() -> (r: SliderAction)
        ensures
            r == SliderAction::NoAction,
    {
        SliderAction::NoAction
    }
}

/// Kind of state change reported after a slider changes (`QAbstractSlider::SliderChange`).
#[derive(Debug, Clone, Copy, PartialEq, Eq, Structural)]
pub enum SliderChange {
    RangeChange,
    OrientationChange,
    StepsChange,
    ValueChange,
}

/// Where tick marks are drawn relative to the groove (`QSlider::TickPosition`).
#[derive(Debug, Clone, Copy, PartialEq, Eq, Structural)]
pub enum TickPosition {
    NoTicks,
    /// Above a horizontal slider, left of a vertical one (`TicksAbove` / `TicksLeft`).
    TicksAbove,
    /// Below a horizontal slider, right of a vertical one (`TicksBelow` / `TicksRight`).
    TicksBelow,
    TicksBothSides,
}

impl Default for TickPosition {
    fn default() -> (r: TickPosition)
        ensures
            r == TickPosition::NoTicks,
    {
        TickPosition::NoTicks
    }
}

/// The pixel offset of `value` in `[0, span]` (`QStyle::sliderPositionFromValue`):
/// values are rounded to the nearest pixel, out-of-range values pinned to an end.
pub open spec fn spec_position_from_value(min: int, max: int, value: int, span: int, upside_down: bool) -> int {
    if span <= 0 || max <= min {
        0
    } else if value < min {
        if upside_down {
            span
        } else {
            0
        }
    } else if value > max {
        if upside_down {
            0
        } else {
            span
        }
    } else {
        let range = max - min;
        let p = if upside_down {
            max - value
        } else {
            value - min
        };
        (2 * p * span + range) / (2 * range)
    }
}

/// The value at pixel offset `pos` of `[0, span]` (`QStyle::sliderValueFromPosition`),
/// rounded to the nearest value.
pub open spec fn spec_value_from_position(min: int, max: int, pos: int, span: int, upside_down: bool) -> int {
    if span <= 0 || pos <= 0 {
        if upside_down {
            max
        } else {
            min
        }
    } else if pos >= span {
        if upside_down {
            min
        } else {
            max
        }
    } else {
        let range = if max - min > 0 {
            max - min
        } else {
            0
        };
        let tmp = (2 * pos * range + span) / (2 * span);
        if upside_down {
            max - tmp
        } else {
            tmp + min
        }
    }
}

/// Rounding `p` of `range` to pixels of `span` and back gives `p` again when
/// every value has a pixel of its own.
proof fn lemma_round_trip_offsets(p: int, range: int, span: int)
    requires
        0 <= p <= range,
        0 < range <= span,
    ensures
        ({
            let pos = (2 * p * span + range) / (2 * range);
            &&& 0 <= pos <= span
            &&& pos == 0 ==> p == 0
            &&& pos == span ==> p == range
            &&& (2 * pos * range + span) / (2 * span) == p
        }),
{
    let x = 2 * p * span + range;
    let q = x / (2 * range);
    let r = x % (2 * range);
    vstd::arithmetic::div_mod::lemma_fundamental_div_mod(x, 2 * range);
    assert(0 <= r < 2 * range);
    assert(x == 2 * range * q + r);
    // q is p * span / range rounded: within half a pixel of it.
    assert(2 * range * q <= 2 * p * span + range);
    assert(2 * p * span + range < 2 * range * q + 2 * range);
    assert(0 <= q) by (nonlinear_arith)
        requires
            2 * p * span + range < 2 * range * q + 2 * range,
            0 <= p,
            0 < range,
            0 < span,
    ;
    assert(q <= span) by (nonlinear_arith)
        requires
            2 * range * q <= 2 * p * span + range,
            p <= range,
            0 < range <= span,
    ;
    assert(q == 0 ==> p == 0) by (nonlinear_arith)
        requires
            2 * p * span + range < 2 * range * q + 2 * range,
            0 <= p,
            0 < range <= span,
    ;
    assert(q == span ==> p == range) by (nonlinear_arith)
        requires
            2 * range * q <= 2 * p * span + range,
            2 * p * span + range < 2 * range * q + 2 * range,
            p <= range,
            0 < range <= span,
    ;
    let y = 2 * q * range + span;
    assert(2 * span * p <= y) by (nonlinear_arith)
        requires
            2 * p * span + range < 2 * range * q + 2 * range,
            y == 2 * q * range + span,
            range <= span,
    ;
    assert(y < 2 * span * p + 2 * span) by (nonlinear_arith)
        requires
            2 * range * q <= 2 * p * span + range,
            y == 2 * q * range + span,
            0 < range <= span,
    {
        if range == span {
            assert(2 * range * q <= 2 * p * range + range);
            assert(q <= p) by (nonlinear_arith)
                requires
                    2 * range * q <= 2 * p * range + range,
                    0 < range,
            ;
        }
    }
    vstd::arithmetic::div_mod::lemma_fundamental_div_mod_converse(y, 2 * span, p, y - 2 * span * p);
}

/// With at least one pixel per value, converting a value in the range to a
/// pixel offset and back gives the value again, in either direction of the
/// slider.
pub proof fn lemma_value_position_round_trip(
    min: int,
    max: int,
    value: int,
    span: int,
    upside_down: bool,
)
    requires
        min < max,
        max - min <= span,
        min <= value <= max,
    ensures
        spec_value_from_position(
            min,
            max,
            spec_position_from_value(min, max, value, span, upside_down),
            span,
            upside_down,
        ) == value,
{
    let range = max - min;
    let p = if upside_down {
        max - value
    } else {
        value - min
    };
    lemma_round_trip_offsets(p, range, span);
}

/// Converts a logical value to a pixel offset in `[0, span]` (`QStyle::sliderPositionFromValue`).
pub fn slider_position_from_value(min: i32, max: i32, value: i32, span: i32, upside_down: bool) -> (r: i32)
    ensures
        r == spec_position_from_value(min as int, max as int, value as int, span as int, upside_down),
        span > 0 ==> 0 <= r <= span,
{
    if span <= 0 || max <= min {
        return 0;
    }
    if value < min {
        return if upside_down {
            span
        } else {
            0
        };
    }
    if value > max {
        return if upside_down {
            0
        } else {
            span
        };
    }
    let range = (max as i64 - min as i64) as u128;
    let p = if upside_down {
        max as i64 - value as i64
    } else {
        value as i64 - min as i64
    } as u128;
    let s = span as u128;
    assert(2 * p * s + range <= 0x2_0000_0000 * 0x8000_0000 + 0x1_0000_0000) by (nonlinear_arith)
        requires
            p <= range,
            range <= 0x1_0000_0000,
            s <= 0x8000_0000,
    ;
    let q = (2 * p * s + range) / (2 * range);
    assert(q <= s) by (nonlinear_arith)
        requires
            p <= range,
            range > 0,
            q == (2 * p * s + range) / (2 * range),
    {
        assert(2 * p * s + range < 2 * range * (s + 1));
    }
    q as i32
}

/// Converts a pixel offset in `[0, span]` to a logical value (`QStyle::sliderValueFromPosition`).
pub fn slider_value_from_position(min: i32, max: i32, pos: i32, span: i32, upside_down: bool) -> (r: i32)
    ensures
        r == spec_value_from_position(min as int, max as int, pos as int, span as int, upside_down),
        min <= max ==> min <= r <= max,
{
    if span <= 0 || pos <= 0 {
        return if upside_down {
            max
        } else {
            min
        };
    }
    if pos >= span {
        return if upside_down {
            min
        } else {
            max
        };
    }
    let d = max as i64 - min as i64;
    let range: u128 = if d > 0 {
        d as u128
    } else {
        0
    };
    let s = span as u128;
    let pp = pos as u128;
    assert(2 * pp * range + s <= 0x1_0000_0000 * 0x1_0000_0000 * 2) by (nonlinear_arith)
        requires
            pp < s,
            s <= 0x8000_0000,
            range <= 0x1_0000_0000,
    ;
    let tmp = (2 * pp * range + s) / (2 * s);
    assert(tmp <= range) by (nonlinear_arith)
        requires
            pp < s,
            s > 0,
            tmp == (2 * pp * range + s) / (2 * s),
    {
        assert(2 * pp * range + s < 2 * s * (range + 1));
    }
    let t = tmp as i64;
    if upside_down {
        (max as i64 - t) as i32
    } else {
        (t + min as i64) as i32
    }
}

/// Something a slider reports to its owner after a change (its signals and
/// repaint requests), in the order they happen.
#[derive(Debug, Clone, Copy, PartialEq, Eq, Structural)]
pub enum SliderNotice {
    /// The committed value changed (`valueChanged(int)`).
    ValueChanged(i32),
    /// The handle moved while pressed (`sliderMoved(int)`).
    SliderMoved(i32),
    /// The handle was pressed (`sliderPressed()`).
    SliderPressed,
    /// The handle was released (`sliderReleased()`).
    SliderReleased,
    /// The range changed to `(minimum, maximum)` (`rangeChanged(int,int)`).
    RangeChanged(i32, i32),
    /// An action was triggered (`actionTriggered(int)`).
    ActionTriggered(SliderAction),
    /// A state change the widget reacts to (`sliderChange`), which repaints it.
    Changed(SliderChange),
    /// The handle moved without committing the value; the widget repaints.
    Repaint,
}

/// The slider state as plain values.
pub struct SliderView {
    pub minimum: int,
    pub maximum: int,
    pub value: int,
    pub position: int,
    pub single_step: int,
    pub page_step: int,
    pub tracking: bool,
    pub pressed: bool,
    pub inverted_appearance: bool,
    pub inverted_controls: bool,
    pub orientation: Orientation,
    pub wrapping: bool,
    pub notices: Seq<SliderNotice>,
}

/// `v` limited to `[lo, hi]`.
pub open spec fn clamp_int(v: int, lo: int, hi: int) -> int {
    if v < lo {
        lo
    } else if v > hi {
        hi
    } else {
        v
    }
}

/// The remainder of Rust's `%`: it takes the sign of the dividend.
pub open spec fn rem_toward_zero(a: int, b: int) -> int {
    if a >= 0 {
        a % b
    } else {
        -((-a) % b)
    }
}

/// A value brought into `[min, max]`: clamped, or with wrapping enabled (and a
/// non-empty range) wrapped around by the span `max - min`.
pub open spec fn spec_bound(min: int, max: int, wrapping: bool, v: int) -> int {
    if wrapping && max > min {
        if min <= v <= max {
            v
        } else {
            let span = max - min;
            let w = min + rem_toward_zero(v - min, span);
            if w < min {
                w + span
            } else {
                w
            }
        }
    } else {
        clamp_int(v, min, max)
    }
}

/// The target position of a stepping action, if it has one.
pub open spec fn action_target(v: SliderView, action: SliderAction) -> Option<int> {
    match action {
        SliderAction::SingleStepAdd => Some(
            spec_bound(v.minimum, v.maximum, v.wrapping, v.position + v.single_step),
        ),
        SliderAction::SingleStepSub => Some(
            spec_bound(v.minimum, v.maximum, v.wrapping, v.position - v.single_step),
        ),
        SliderAction::PageStepAdd => Some(
            spec_bound(v.minimum, v.maximum, v.wrapping, v.position + v.page_step),
        ),
        SliderAction::PageStepSub => Some(
            spec_bound(v.minimum, v.maximum, v.wrapping, v.position - v.page_step),
        ),
        SliderAction::ToMinimum => Some(v.minimum),
        SliderAction::ToMaximum => Some(v.maximum),
        _ => None,
    }
}

/// The action a key press triggers (`QAbstractSlider::keyPressEvent`), if any.
pub open spec fn key_action(key: u32, inverted: bool) -> Option<SliderAction> {
    let (add, sub) = if inverted {
        (SliderAction::SingleStepSub, SliderAction::SingleStepAdd)
    } else {
        (SliderAction::SingleStepAdd, SliderAction::SingleStepSub)
    };
    if key == 0x25 || key == 0x0100_0012 || key == 0x28 || key == 0x0100_0015 {
        Some(sub)
    } else if key == 0x27 || key == 0x0100_0014 || key == 0x26 || key == 0x0100_0013 {
        Some(add)
    } else if key == 0x21 || key == 0x0100_0016 {
        Some(
            if inverted {
                SliderAction::PageStepSub
            } else {
                SliderAction::PageStepAdd
            },
        )
    } else if key == 0x22 || key == 0x0100_0017 {
        Some(
            if inverted {
                SliderAction::PageStepAdd
            } else {
                SliderAction::PageStepSub
            },
        )
    } else if key == 0x24 || key == 0x0100_0010 {
        Some(SliderAction::ToMinimum)
    } else if key == 0x23 || key == 0x0100_0011 {
        Some(SliderAction::ToMaximum)
    } else {
        None
    }
}


/// The state after committing `value` (`QAbstractSlider::setValue`): the value
/// is bounded; nothing happens when value and position already equal it;
/// otherwise the position follows (reporting a move while the handle is held),
/// then the change and the new value are reported.
pub open spec fn committed(o: SliderView, value: int) -> SliderView {
    let v = spec_bound(o.minimum, o.maximum, o.wrapping, value);
    if o.value == v && o.position == v {
        o
    } else {
        let moved = if o.position != v && o.pressed {
            seq![SliderNotice::SliderMoved(v as i32)]
        } else {
            Seq::empty()
        };
        SliderView {
            value: v,
            position: v,
            notices: o.notices + moved + seq![
                SliderNotice::Changed(SliderChange::ValueChange),
                SliderNotice::ValueChanged(v as i32),
            ],
            ..o
        }
    }
}

/// The state after the handle moves to the in-range position `p` without
/// committing: a repaint when not tracking, a move report while held.
pub open spec fn moved(o: SliderView, p: int) -> SliderView {
    if p == o.position {
        o
    } else {
        SliderView {
            position: p,
            notices: o.notices + (if !o.tracking {
                seq![SliderNotice::Repaint]
            } else {
                Seq::empty()
            }) + (if o.pressed {
                seq![SliderNotice::SliderMoved(p as i32)]
            } else {
                Seq::empty()
            }),
            ..o
        }
    }
}

/// The state after `action` is triggered (`QAbstractSlider::triggerAction`):
/// the handle moves to the action's target, the action is reported, and the
/// position is committed.
pub open spec fn triggered(o: SliderView, action: SliderAction) -> SliderView {
    let a = match action_target(o, action) {
        Some(t) => moved(o, t),
        None => o,
    };
    let b = SliderView { notices: a.notices.push(SliderNotice::ActionTriggered(action)), ..a };
    committed(b, b.position)
}

/// The state after the handle is moved to `position` (`setSliderPosition`):
/// with tracking, the move is committed as a `Move` action.
pub open spec fn positioned(o: SliderView, position: int) -> SliderView {
    let p = spec_bound(o.minimum, o.maximum, o.wrapping, position);
    if p == o.position {
        o
    } else if o.tracking {
        triggered(moved(o, p), SliderAction::Move)
    } else {
        moved(o, p)
    }
}

/// The state after the handle is pressed or released (`setSliderDown`):
/// the change is reported, and a release commits a pending position.
pub open spec fn pressed_down(o: SliderView, down: bool) -> SliderView {
    let a = SliderView {
        pressed: down,
        notices: o.notices + (if o.pressed != down {
            if down {
                seq![SliderNotice::SliderPressed]
            } else {
                seq![SliderNotice::SliderReleased]
            }
        } else {
            Seq::empty()
        }),
        ..o
    };
    if !down && a.position != a.value {
        triggered(a, SliderAction::Move)
    } else {
        a
    }
}

/// The state after a step size is set: negative steps count by their
/// magnitude (saturating), and a change is reported.
pub open spec fn saturating_abs(step: int) -> int {
    if step == i32::MIN {
        i32::MAX as int
    } else if step < 0 {
        -step
    } else {
        step
    }
}

/// The committed value and the visual position of a slider, with its range,
/// steps and flags (`QAbstractSliderPrivate`). Reported changes queue up in
/// order until the owner takes them.
pub struct SliderState {
    minimum: i32,
    maximum: i32,
    value: i32,
    position: i32,
    single_step: i32,
    page_step: i32,
    tracking: bool,
    block_tracking: bool,
    pressed: bool,
    inverted_appearance: bool,
    inverted_controls: bool,
    orientation: Orientation,
    wrapping: bool,
    notices: Vec<SliderNotice>,
}

impl View for SliderState {
    type V = SliderView;

    closed spec fn view(&self) -> SliderView {
        SliderView {
            minimum: self.minimum as int,
            maximum: self.maximum as int,
            value: self.value as int,
            position: self.position as int,
            single_step: self.single_step as int,
            page_step: self.page_step as int,
            tracking: self.tracking,
            pressed: self.pressed,
            inverted_appearance: self.inverted_appearance,
            inverted_controls: self.inverted_controls,
            orientation: self.orientation,
            wrapping: self.wrapping,
            notices: self.notices@,
        }
    }
}

/// The range is ordered and holds the value and the position; steps are not negative.
pub open spec fn slider_wf(v: SliderView) -> bool {
    &&& v.minimum <= v.maximum
    &&& v.minimum <= v.value <= v.maximum
    &&& v.minimum <= v.position <= v.maximum
    &&& v.single_step >= 0
    &&& v.page_step >= 0
}

/// A bounded value lies in the range.
pub proof fn lemma_bound_in_range(min: int, max: int, wrapping: bool, v: int)
    requires
        min <= max,
    ensures
        min <= spec_bound(min, max, wrapping, v) <= max,
{
    if wrapping && max > min && !(min <= v <= max) {
        let span = max - min;
        let d = v - min;
        if d >= 0 {
            assert(0 <= d % span < span);
        } else {
            assert(0 <= (-d) % span < span);
        }
    }
}

impl SliderState {
    /// The invariant every slider state keeps between operations.
    pub closed spec fn wf(&self) -> bool {
        slider_wf(self@) && !self.block_tracking
    }

    /// The state's value view satisfies the invariant.
    pub proof fn lemma_wf_view(&self)
        requires
            self.wf(),
        ensures
            slider_wf(self@),
    {
    }

    /// Qt defaults: range `0..=99`, value 0, single step 1, page step 10,
    /// tracking on, nothing reported yet.
    pub open spec fn spec_fresh(orientation: Orientation) -> SliderView {
        SliderView {
            minimum: 0,
            maximum: 99,
            value: 0,
            position: 0,
            single_step: 1,
            page_step: 10,
            tracking: true,
            pressed: false,
            inverted_appearance: false,
            inverted_controls: false,
            orientation,
            wrapping: false,
            notices: Seq::empty(),
        }
    }

    /// Qt defaults: range `0..=99`, value 0, single step 1, page step 10, tracking on.
    pub fn new(orientation: Orientation) -> (r: Self)
        ensures
            r.wf(),
            r@ == Self::spec_fresh(orientation),
    {
        SliderState {
            minimum: 0,
            maximum: 99,
            value: 0,
            position: 0,
            single_step: 1,
            page_step: 10,
            tracking: true,
            block_tracking: false,
            pressed: false,
            inverted_appearance: false,
            inverted_controls: false,
            orientation,
            wrapping: false,
            notices: Vec::new(),
        }
    }

    /// Clamps (or, with wrapping enabled, wraps) `value` into `[minimum, maximum]`.
    pub fn bound(&self, value: i64) -> (r: i32)
        requires
            self@.minimum <= self@.maximum,
        ensures
            r == spec_bound(self@.minimum, self@.maximum, self@.wrapping, value as int),
            self@.minimum <= r <= self@.maximum,
    {
        proof {
            lemma_bound_in_range(self@.minimum, self@.maximum, self@.wrapping, value as int);
        }
        let min = self.minimum as i128;
        let max = self.maximum as i128;
        let v = value as i128;
        if self.wrapping && max > min {
            if min <= v && v <= max {
                return value as i32;
            }
            let span = max - min;
            let d = v - min;
            let r = if d >= 0 {
                d % span
            } else {
                -((-d) % span)
            };
            let mut wrapped = min + r;
            if wrapped < min {
                wrapped = wrapped + span;
            }
            wrapped as i32
        } else if v < min {
            self.minimum
        } else if v > max {
            self.maximum
        } else {
            value as i32
        }
    }

    /// The reported changes not yet taken, oldest first.
    pub fn notices(&self) -> (r: &[SliderNotice])
        ensures
            r@ == self@.notices,
    {
        self.notices.as_slice()
    }

    /// Hands over the reported changes, oldest first, and forgets them.
    pub fn take_notices(&mut self) -> (r: Vec<SliderNotice>)
        ensures
            r@ == old(self)@.notices,
            final(self)@ == (SliderView { notices: Seq::empty(), ..old(self)@ }),
    {
        let mut out: Vec<SliderNotice> = Vec::new();
        std::mem::swap(&mut out, &mut self.notices);
        out
    }

    /// The lower end of the range.
    pub fn minimum(&self) -> (r: i32)
        ensures
            r == self@.minimum,
    {
        self.minimum
    }

    /// The upper end of the range.
    pub fn maximum(&self) -> (r: i32)
        ensures
            r == self@.maximum,
    {
        self.maximum
    }

    /// The committed value.
    pub fn value(&self) -> (r: i32)
        ensures
            r == self@.value,
    {
        self.value
    }

    /// The visual handle position.
    pub fn slider_position(&self) -> (r: i32)
        ensures
            r == self@.position,
    {
        self.position
    }

    /// The single step.
    pub fn single_step(&self) -> (r: i32)
        ensures
            r == self@.single_step,
    {
        self.single_step
    }

    /// The page step.
    pub fn page_step(&self) -> (r: i32)
        ensures
            r == self@.page_step,
    {
        self.page_step
    }

    /// Whether moving the handle commits the value right away.
    pub fn has_tracking(&self) -> (r: bool)
        ensures
            r == self@.tracking,
    {
        self.tracking
    }

    /// Whether the handle is held down.
    pub fn is_slider_down(&self) -> (r: bool)
        ensures
            r == self@.pressed,
    {
        self.pressed
    }

    /// Whether the slider shows its range reversed.
    pub fn inverted_appearance(&self) -> (r: bool)
        ensures
            r == self@.inverted_appearance,
    {
        self.inverted_appearance
    }

    /// Whether keys and wheel step the other way.
    pub fn inverted_controls(&self) -> (r: bool)
        ensures
            r == self@.inverted_controls,
    {
        self.inverted_controls
    }

    /// The orientation.
    pub fn orientation(&self) -> (r: Orientation)
        ensures
            r == self@.orientation,
    {
        self.orientation
    }

    /// Whether values wrap around the range.
    pub fn wrapping(&self) -> (r: bool)
        ensures
            r == self@.wrapping,
    {
        self.wrapping
    }

    /// Commits `value` (bounded). Nothing happens when value and position already
    /// equal it; otherwise the position follows (reporting a move while the
    /// handle is held), then the change and the new value are reported.
    pub fn set_value(&mut self, value: i32)
        requires
            old(self).wf(),
        ensures
            final(self).wf(),
            final(self)@ == committed(old(self)@, value as int),
    {
        let v = self.bound(value as i64);
        if self.value == v && self.position == v {
            return ;
        }
        self.value = v;
        if self.position != v {
            self.position = v;
            if self.pressed {
                self.notices.push(SliderNotice::SliderMoved(v));
            }
        }
        self.notices.push(SliderNotice::Changed(SliderChange::ValueChange));
        self.notices.push(SliderNotice::ValueChanged(v));
        proof {
            let o = old(self)@;
            let moved = if o.position != v && o.pressed {
                seq![SliderNotice::SliderMoved(v as i32)]
            } else {
                Seq::<SliderNotice>::empty()
            };
            assert(self.notices@ =~= o.notices + moved + seq![
                SliderNotice::Changed(SliderChange::ValueChange),
                SliderNotice::ValueChanged(v as i32),
            ]);
        }
    }

    /// Sets the range; `max` is raised to `min` if smaller. When the range
    /// changes it is reported and the value is committed again within it.
    pub fn set_range(&mut self, min: i32, max: i32)
        requires
            old(self).wf(),
        ensures
            final(self).wf(),
            ({
                let o = old(self)@;
                let hi = if max >= min {
                    max as int
                } else {
                    min as int
                };
                let f = final(self)@;
                if o.minimum == min && o.maximum == hi {
                    f == o
                } else {
                    let v = spec_bound(min as int, hi, o.wrapping, o.value);
                    &&& f.minimum == min
                    &&& f.maximum == hi
                    &&& f.value == v
                    &&& f.position == (if o.value == v && o.position == v {
                        o.position
                    } else {
                        v
                    })
                    &&& f.notices.subrange(0, o.notices.len() + 2int) == o.notices + seq![
                        SliderNotice::RangeChanged(min, hi as i32),
                        SliderNotice::Changed(SliderChange::RangeChange),
                    ]
                    &&& f.single_step == o.single_step && f.page_step == o.page_step
                    &&& f.tracking == o.tracking && f.pressed == o.pressed
                    &&& f.inverted_appearance == o.inverted_appearance
                    &&& f.inverted_controls == o.inverted_controls
                    &&& f.orientation == o.orientation && f.wrapping == o.wrapping
                }
            }),
    {
        let hi = if max >= min {
            max
        } else {
            min
        };
        if self.minimum == min && self.maximum == hi {
            return ;
        }
        let old_value = self.value;
        self.minimum = min;
        self.maximum = hi;
        self.notices.push(SliderNotice::RangeChanged(min, hi));
        self.notices.push(SliderNotice::Changed(SliderChange::RangeChange));
        // The value and position may lie outside the new range until re-bounded.
        let v = self.bound(old_value as i64);
        let ghost mid = self.notices@;
        if !(self.value == v && self.position == v) {
            self.value = v;
            if self.position != v {
                self.position = v;
                if self.pressed {
                    self.notices.push(SliderNotice::SliderMoved(v));
                }
            }
            self.notices.push(SliderNotice::Changed(SliderChange::ValueChange));
            self.notices.push(SliderNotice::ValueChanged(v));
        }
        proof {
            assert(self.notices@.subrange(0, old(self)@.notices.len() + 2int) =~= mid);
            assert(mid =~= old(self)@.notices + seq![
                SliderNotice::RangeChanged(min, hi),
                SliderNotice::Changed(SliderChange::RangeChange),
            ]);
        }
    }

    /// Sets the lower end, raising the upper end to it if needed.
    pub fn set_minimum(&mut self, min: i32)
        requires
            old(self).wf(),
        ensures
            final(self).wf(),
            final(self)@.minimum == min,
            final(self)@.maximum == (if old(self)@.maximum >= min {
                old(self)@.maximum
            } else {
                min as int
            }),
    {
        let max = if self.maximum >= min {
            self.maximum
        } else {
            min
        };
        self.set_range(min, max);
    }

    /// Sets the upper end, lowering the lower end to it if needed.
    pub fn set_maximum(&mut self, max: i32)
        requires
            old(self).wf(),
        ensures
            final(self).wf(),
            final(self)@.maximum == max,
            final(self)@.minimum == (if old(self)@.minimum <= max {
                old(self)@.minimum
            } else {
                max as int
            }),
    {
        let min = if self.minimum <= max {
            self.minimum
        } else {
            max
        };
        self.set_range(min, max);
    }

    /// Moves the handle to the in-range position `p` without committing.
    fn move_position(&mut self, p: i32)
        requires
            slider_wf(old(self)@),
            old(self)@.minimum <= p <= old(self)@.maximum,
        ensures
            slider_wf(final(self)@),
            final(self)@ == moved(old(self)@, p as int),
            final(self).block_tracking == old(self).block_tracking,
    {
        if p == self.position {
            return ;
        }
        self.position = p;
        let ghost mid = self.notices@;
        if !self.tracking {
            self.notices.push(SliderNotice::Repaint);
        }
        let ghost mid2 = self.notices@;
        if self.pressed {
            self.notices.push(SliderNotice::SliderMoved(p));
        }
        proof {
            let o = old(self)@;
            assert(self.notices@ =~= o.notices + (if !o.tracking {
                seq![SliderNotice::Repaint]
            } else {
                Seq::empty()
            }) + (if o.pressed {
                seq![SliderNotice::SliderMoved(p)]
            } else {
                Seq::empty()
            }));
        }
    }

    /// Commits `value` while a trigger may be in progress.
    fn commit(&mut self, value: i32)
        requires
            slider_wf(old(self)@),
        ensures
            slider_wf(final(self)@),
            final(self)@ == committed(old(self)@, value as int),
            final(self).block_tracking == old(self).block_tracking,
    {
        let v = self.bound(value as i64);
        if self.value == v && self.position == v {
            return ;
        }
        self.value = v;
        if self.position != v {
            self.position = v;
            if self.pressed {
                self.notices.push(SliderNotice::SliderMoved(v));
            }
        }
        self.notices.push(SliderNotice::Changed(SliderChange::ValueChange));
        self.notices.push(SliderNotice::ValueChanged(v));
        proof {
            let o = old(self)@;
            let moved = if o.position != v && o.pressed {
                seq![SliderNotice::SliderMoved(v as i32)]
            } else {
                Seq::<SliderNotice>::empty()
            };
            assert(self.notices@ =~= o.notices + moved + seq![
                SliderNotice::Changed(SliderChange::ValueChange),
                SliderNotice::ValueChanged(v as i32),
            ]);
        }
    }

    /// Performs `action` and commits the resulting position (`triggerAction`).
    pub fn trigger_action(&mut self, action: SliderAction)
        requires
            old(self).wf(),
        ensures
            final(self).wf(),
            final(self)@ == triggered(old(self)@, action),
    {
        self.block_tracking = true;
        let ghost o = self@;
        let target: Option<i32> = match action {
            SliderAction::SingleStepAdd => Some(self.bound(self.position as i64 + self.single_step as i64)),
            SliderAction::SingleStepSub => Some(self.bound(self.position as i64 - self.single_step as i64)),
            SliderAction::PageStepAdd => Some(self.bound(self.position as i64 + self.page_step as i64)),
            SliderAction::PageStepSub => Some(self.bound(self.position as i64 - self.page_step as i64)),
            SliderAction::ToMinimum => Some(self.minimum),
            SliderAction::ToMaximum => Some(self.maximum),
            _ => None,
        };
        match target {
            Some(t) => self.move_position(t),
            None => {},
        }
        self.notices.push(SliderNotice::ActionTriggered(action));
        self.block_tracking = false;
        let p = self.position;
        self.commit(p);
    }

    /// Moves the visual handle (bounded); commits the value immediately only
    /// when tracking.
    pub fn set_slider_position(&mut self, position: i32)
        requires
            old(self).wf(),
        ensures
            final(self).wf(),
            final(self)@ == positioned(old(self)@, position as int),
    {
        let p = self.bound(position as i64);
        if p == self.position {
            return ;
        }
        self.move_position(p);
        if self.tracking && !self.block_tracking {
            self.trigger_action(SliderAction::Move);
        }
    }

    /// Sets the single step to the magnitude of `step` (saturating).
    pub fn set_single_step(&mut self, step: i32)
        requires
            old(self).wf(),
        ensures
            final(self).wf(),
            final(self)@ == (if saturating_abs(step as int) == old(self)@.single_step {
                old(self)@
            } else {
                SliderView {
                    single_step: saturating_abs(step as int),
                    notices: old(self)@.notices.push(SliderNotice::Changed(SliderChange::StepsChange)),
                    ..old(self)@
                }
            }),
    {
        let s = if step == i32::MIN {
            i32::MAX
        } else if step < 0 {
            -step
        } else {
            step
        };
        if s != self.single_step {
            self.single_step = s;
            self.notices.push(SliderNotice::Changed(SliderChange::StepsChange));
        }
    }

    /// Sets the page step to the magnitude of `step` (saturating).
    pub fn set_page_step(&mut self, step: i32)
        requires
            old(self).wf(),
        ensures
            final(self).wf(),
            final(self)@ == (if saturating_abs(step as int) == old(self)@.page_step {
                old(self)@
            } else {
                SliderView {
                    page_step: saturating_abs(step as int),
                    notices: old(self)@.notices.push(SliderNotice::Changed(SliderChange::StepsChange)),
                    ..old(self)@
                }
            }),
    {
        let s = if step == i32::MIN {
            i32::MAX
        } else if step < 0 {
            -step
        } else {
            step
        };
        if s != self.page_step {
            self.page_step = s;
            self.notices.push(SliderNotice::Changed(SliderChange::StepsChange));
        }
    }

    /// Turns tracking on or off.
    pub fn set_tracking(&mut self, enable: bool)
        requires
            old(self).wf(),
        ensures
            final(self).wf(),
            final(self)@ == (SliderView { tracking: enable, ..old(self)@ }),
    {
        self.tracking = enable;
    }

    /// Marks the handle as pressed or released; releasing commits a pending position.
    pub fn set_slider_down(&mut self, down: bool)
        requires
            old(self).wf(),
        ensures
            final(self).wf(),
            final(self)@ == pressed_down(old(self)@, down),
    {
        let changed = self.pressed != down;
        self.pressed = down;
        if changed {
            if down {
                self.notices.push(SliderNotice::SliderPressed);
            } else {
                self.notices.push(SliderNotice::SliderReleased);
            }
        }
        proof {
            let o = old(self)@;
            assert(self.notices@ =~= o.notices + (if o.pressed != down {
                if down {
                    seq![SliderNotice::SliderPressed]
                } else {
                    seq![SliderNotice::SliderReleased]
                }
            } else {
                Seq::empty()
            }));
        }
        if !down && self.position != self.value {
            self.trigger_action(SliderAction::Move);
        }
    }

    /// Shows the range reversed or not.
    pub fn set_inverted_appearance(&mut self, invert: bool)
        requires
            old(self).wf(),
        ensures
            final(self).wf(),
            final(self)@ == (SliderView {
                inverted_appearance: invert,
                notices: old(self)@.notices.push(SliderNotice::Repaint),
                ..old(self)@
            }),
    {
        self.inverted_appearance = invert;
        self.notices.push(SliderNotice::Repaint);
    }

    /// Makes keys and wheel step the other way or not.
    pub fn set_inverted_controls(&mut self, invert: bool)
        requires
            old(self).wf(),
        ensures
            final(self).wf(),
            final(self)@ == (SliderView { inverted_controls: invert, ..old(self)@ }),
    {
        self.inverted_controls = invert;
    }

    /// Lets values wrap around the range or not.
    pub fn set_wrapping(&mut self, wrapping: bool)
        requires
            old(self).wf(),
        ensures
            final(self).wf(),
            final(self)@ == (SliderView { wrapping, ..old(self)@ }),
    {
        self.wrapping = wrapping;
    }

    /// Changes the orientation, reporting the change.
    pub fn set_orientation(&mut self, orientation: Orientation)
        requires
            old(self).wf(),
        ensures
            final(self).wf(),
            final(self)@ == (if orientation == old(self)@.orientation {
                old(self)@
            } else {
                SliderView {
                    orientation,
                    notices: old(self)@.notices.push(
                        SliderNotice::Changed(SliderChange::OrientationChange),
                    ),
                    ..old(self)@
                }
            }),
    {
        if self.orientation == orientation {
            return ;
        }
        self.orientation = orientation;
        self.notices.push(SliderNotice::Changed(SliderChange::OrientationChange));
    }

    /// Keyboard handling (`QAbstractSlider::keyPressEvent`): arrows step, page
    /// keys page, Home/End go to the ends (reversed with inverted controls).
    /// Returns whether the key was used.
    pub fn key_press(&mut self, key: u32) -> (r: bool)
        requires
            old(self).wf(),
        ensures
            final(self).wf(),
            r == key_action(key, old(self)@.inverted_controls) is Some,
            match key_action(key, old(self)@.inverted_controls) {
                Some(a) => final(self)@ == triggered(old(self)@, a),
                None => final(self)@ == old(self)@,
            },
    {
        let inverted = self.inverted_controls;
        let (add, sub) = if inverted {
            (SliderAction::SingleStepSub, SliderAction::SingleStepAdd)
        } else {
            (SliderAction::SingleStepAdd, SliderAction::SingleStepSub)
        };
        let action = if input_keys::is_left(key) || input_keys::is_down(key) {
            sub
        } else if input_keys::is_right(key) || input_keys::is_up(key) {
            add
        } else if input_keys::is_page_up(key) {
            if inverted {
                SliderAction::PageStepSub
            } else {
                SliderAction::PageStepAdd
            }
        } else if input_keys::is_page_down(key) {
            if inverted {
                SliderAction::PageStepAdd
            } else {
                SliderAction::PageStepSub
            }
        } else if input_keys::is_home(key) {
            SliderAction::ToMinimum
        } else if input_keys::is_end(key) {
            SliderAction::ToMaximum
        } else {
            return false;
        };
        self.trigger_action(action);
        true
    }
}


/// Length of a slider's handle along the groove.
pub const HANDLE_LENGTH: i32 = 12;

/// Space kept for tick marks on each ticked side.
pub const TICK_SPACE: i32 = 5;

/// What a held mouse button pressed on a slider.
#[derive(Debug, Clone, Copy, PartialEq, Eq, Structural)]
pub enum SliderPress {
    Nothing,
    Handle,
    Groove,
}

/// A slider widget as plain values.
pub struct SliderWidgetView {
    pub slider: SliderView,
    pub tick_position: TickPosition,
    pub tick_interval: int,
    pub pressed_control: SliderPress,
    pub click_offset: int,
    pub handle_hovered: bool,
    pub enabled: bool,
    pub has_focus: bool,
    pub geometry: Rect,
}

/// The widget's extent along the groove.
pub open spec fn along_extent(w: SliderWidgetView) -> int {
    match w.slider.orientation {
        Orientation::Horizontal => w.geometry.width as int,
        Orientation::Vertical => w.geometry.height as int,
    }
}

/// Pixels the handle's leading edge can travel.
pub open spec fn groove_span(w: SliderWidgetView) -> int {
    if along_extent(w) - HANDLE_LENGTH > 0 {
        along_extent(w) - HANDLE_LENGTH
    } else {
        0
    }
}

/// Whether values grow against the pixel direction: a vertical slider has
/// its minimum at the bottom unless its appearance is inverted.
pub open spec fn upside_down(w: SliderWidgetView) -> bool {
    match w.slider.orientation {
        Orientation::Horizontal => w.slider.inverted_appearance,
        Orientation::Vertical => !w.slider.inverted_appearance,
    }
}

/// The coordinate of `pos` along the groove.
pub open spec fn pick(w: SliderWidgetView, pos: Point) -> int {
    match w.slider.orientation {
        Orientation::Horizontal => pos.x as int,
        Orientation::Vertical => pos.y as int,
    }
}

/// The offset of the handle's leading edge for the current position.
pub open spec fn spec_handle_offset(w: SliderWidgetView) -> int {
    spec_position_from_value(w.slider.minimum, w.slider.maximum, w.slider.position, groove_span(w), upside_down(w))
}

/// The value at a leading-edge offset.
pub open spec fn spec_pixel_value(w: SliderWidgetView, pixel: int) -> int {
    spec_value_from_position(w.slider.minimum, w.slider.maximum, pixel, groove_span(w), upside_down(w))
}

/// Whether `pos` lies on the handle.
pub open spec fn on_handle(w: SliderWidgetView, pos: Point) -> bool {
    spec_handle_offset(w) <= pick(w, pos) < spec_handle_offset(w) + HANDLE_LENGTH
}

/// A press (`QSlider::mousePressEvent`) on an enabled slider with a range
/// and no press held: the middle button centres the handle on the pointer
/// and drags it; the left button on the handle drags it, and elsewhere on
/// the groove pages towards the pointer.
pub open spec fn spec_slider_press(w: SliderWidgetView, pos: Point, button: u32) -> SliderWidgetView {
    if !w.enabled || w.slider.maximum == w.slider.minimum || w.pressed_control != SliderPress::Nothing {
        w
    } else if button == 3 {
        let center = HANDLE_LENGTH / 2;
        let target = spec_pixel_value(w, pick(w, pos) - center);
        let s = triggered(positioned(w.slider, target), SliderAction::Move);
        SliderWidgetView {
            slider: pressed_down(s, true),
            pressed_control: SliderPress::Handle,
            click_offset: center as int,
            ..w
        }
    } else if button == 1 {
        if on_handle(w, pos) {
            SliderWidgetView {
                slider: pressed_down(w.slider, true),
                pressed_control: SliderPress::Handle,
                click_offset: pick(w, pos) - spec_handle_offset(w),
                ..w
            }
        } else {
            let pv = spec_pixel_value(w, pick(w, pos) - HANDLE_LENGTH / 2);
            SliderWidgetView {
                pressed_control: SliderPress::Groove,
                slider: if pv > w.slider.value {
                    triggered(w.slider, SliderAction::PageStepAdd)
                } else if pv < w.slider.value {
                    triggered(w.slider, SliderAction::PageStepSub)
                } else {
                    w.slider
                },
                ..w
            }
        }
    } else {
        w
    }
}

/// A drag moves a held handle so that the pointer keeps its place on it;
/// otherwise only whether the pointer is over the handle is noted.
pub open spec fn spec_slider_move(w: SliderWidgetView, pos: Point) -> SliderWidgetView {
    if w.pressed_control == SliderPress::Handle {
        SliderWidgetView { slider: positioned(w.slider, spec_pixel_value(w, pick(w, pos) - w.click_offset)), ..w }
    } else {
        SliderWidgetView { handle_hovered: on_handle(w, pos), ..w }
    }
}

/// Releasing the left or middle button ends a press; a held handle is let go.
pub open spec fn spec_slider_release(w: SliderWidgetView, button: u32) -> SliderWidgetView {
    if w.pressed_control == SliderPress::Nothing || !(button == 1 || button == 3) {
        w
    } else if w.pressed_control == SliderPress::Handle {
        SliderWidgetView { pressed_control: SliderPress::Nothing, slider: pressed_down(w.slider, false), ..w }
    } else {
        SliderWidgetView { pressed_control: SliderPress::Nothing, ..w }
    }
}

/// Room taken by ticks across the groove.
pub open spec fn tick_room(t: TickPosition) -> int {
    match t {
        TickPosition::NoTicks => 0,
        TickPosition::TicksAbove => TICK_SPACE as int,
        TickPosition::TicksBelow => TICK_SPACE as int,
        TickPosition::TicksBothSides => 2 * TICK_SPACE,
    }
}

/// The preferred size: 84 along, 20 across plus the tick room.
pub open spec fn slider_size_hint(w: SliderWidgetView) -> Size {
    let thick = (20 + tick_room(w.tick_position)) as i32;
    match w.slider.orientation {
        Orientation::Horizontal => Size { width: 84, height: thick },
        Orientation::Vertical => Size { width: thick, height: 84 },
    }
}

/// The interval between ticks: the set one, or else the single step (the
/// page step when single steps are under 3 pixels apart), at least 1.
pub open spec fn effective_tick_interval(w: SliderWidgetView) -> int {
    let i = if w.tick_interval <= 0 {
        let single = w.slider.single_step;
        let step_px = spec_position_from_value(w.slider.minimum, w.slider.maximum, single, groove_span(w), false)
            - spec_position_from_value(w.slider.minimum, w.slider.maximum, 0, groove_span(w), false);
        if step_px < 3 {
            w.slider.page_step
        } else {
            single
        }
    } else {
        w.tick_interval
    };
    if i <= 0 {
        1
    } else {
        i
    }
}

/// Ticks from `min` every `interval` through `max + 1`, the last pinned to
/// `max` (none at `max + 1` for an interval of 1).
pub open spec fn tick_count(min: int, max: int, interval: int) -> int {
    let c = (max + 1 - min) / interval + 1;
    if interval == 1 {
        c - 1
    } else {
        c
    }
}

/// The tick values of a slider.
pub open spec fn spec_tick_values(w: SliderWidgetView) -> Seq<i32> {
    if w.tick_position == TickPosition::NoTicks {
        Seq::empty()
    } else {
        let min = w.slider.minimum;
        let max = w.slider.maximum;
        let i = effective_tick_interval(w);
        Seq::new(
            tick_count(min, max, i) as nat,
            |k: int|
                (if min + k * i < max {
                    min + k * i
                } else {
                    max
                }) as i32,
        )
    }
}

/// A linear slider widget (`QSlider`).
pub struct Slider {
    state: SliderState,
    tick_position: TickPosition,
    tick_interval: i32,
    pressed_control: SliderPress,
    click_offset: i32,
    handle_hovered: bool,
    enabled: bool,
    has_focus: bool,
    geometry: Rect,
}

impl View for Slider {
    type V = SliderWidgetView;

    closed spec fn view(&self) -> SliderWidgetView {
        SliderWidgetView {
            slider: self.state@,
            tick_position: self.tick_position,
            tick_interval: self.tick_interval as int,
            pressed_control: self.pressed_control,
            click_offset: self.click_offset as int,
            handle_hovered: self.handle_hovered,
            enabled: self.enabled,
            has_focus: self.has_focus,
            geometry: self.geometry,
        }
    }
}

impl Slider {
    /// The widget's invariant: a sound slider state, a tick interval that
    /// is not negative, and a click offset within the handle.
    pub closed spec fn wf(&self) -> bool {
        &&& self.state.wf()
        &&& self.tick_interval >= 0
        &&& 0 <= self.click_offset < HANDLE_LENGTH
    }

    /// The state behind the widget.
    pub closed spec fn spec_state(&self) -> &SliderState {
        &self.state
    }

    /// A vertical slider.
    pub fn new() -> (r: Self)
        ensures
            r.wf(),
            r@.slider.orientation == Orientation::Vertical,
            r@.geometry == (Rect { x: 0, y: 0, width: 20, height: 84 }),
    {
        Self::with_orientation(Orientation::Vertical)
    }

    /// A slider in `orientation` over the default range, without ticks,
    /// enabled, sized to its preferred size.
    pub fn with_orientation(orientation: Orientation) -> (r: Self)
        ensures
            r.wf(),
            r@.slider == SliderState::spec_fresh(orientation),
            r@.tick_position == TickPosition::NoTicks,
            r@.tick_interval == 0,
            r@.pressed_control == SliderPress::Nothing,
            !r@.handle_hovered,
            r@.enabled,
            !r@.has_focus,
            r@.geometry == (match orientation {
                Orientation::Horizontal => Rect { x: 0, y: 0, width: 84, height: 20 },
                Orientation::Vertical => Rect { x: 0, y: 0, width: 20, height: 84 },
            }),
    {
        let geometry = match orientation {
            Orientation::Horizontal => Rect { x: 0, y: 0, width: 84, height: 20 },
            Orientation::Vertical => Rect { x: 0, y: 0, width: 20, height: 84 },
        };
        Slider {
            state: SliderState::new(orientation),
            tick_position: TickPosition::NoTicks,
            tick_interval: 0,
            pressed_control: SliderPress::Nothing,
            click_offset: 0,
            handle_hovered: false,
            enabled: true,
            has_focus: false,
            geometry,
        }
    }

    /// The slider state.
    pub fn state(&self) -> (r: &SliderState)
        ensures
            r == self.spec_state(),
            r@ == self@.slider,
    {
        &self.state
    }

    /// The slider state, to change (range, steps, value).
    pub fn state_mut(&mut self) -> (r: &mut SliderState)
        requires
            old(self).wf(),
        ensures
            *r == *old(self).spec_state(),
            r.wf(),
            final(self)@ == (SliderWidgetView { slider: final(r)@, ..old(self)@ }),
            final(r).wf() ==> final(self).wf(),
    {
        &mut self.state
    }

    pub fn tick_position(&self) -> (r: TickPosition)
        ensures
            r == self@.tick_position,
    {
        self.tick_position
    }

    pub fn set_tick_position(&mut self, position: TickPosition)
        requires
            old(self).wf(),
        ensures
            final(self).wf(),
            final(self)@ == (SliderWidgetView { tick_position: position, ..old(self)@ }),
    {
        self.tick_position = position;
    }

    pub fn tick_interval(&self) -> (r: i32)
        ensures
            r == self@.tick_interval,
    {
        self.tick_interval
    }

    /// Sets the interval between ticks; 0 (or less) picks one automatically.
    pub fn set_tick_interval(&mut self, interval: i32)
        requires
            old(self).wf(),
        ensures
            final(self).wf(),
            final(self)@ == (SliderWidgetView {
                tick_interval: if interval > 0 {
                    interval as int
                } else {
                    0
                },
                ..old(self)@
            }),
    {
        self.tick_interval = if interval > 0 {
            interval
        } else {
            0
        };
    }

    fn span(&self) -> (r: i32)
        ensures
            r == groove_span(self@),
            r >= 0,
    {
        let along = match self.state.orientation() {
            Orientation::Horizontal => self.geometry.width,
            Orientation::Vertical => self.geometry.height,
        };
        if along as i64 - HANDLE_LENGTH as i64 > 0 {
            along - HANDLE_LENGTH
        } else {
            0
        }
    }

    fn upside_down(&self) -> (r: bool)
        ensures
            r == upside_down(self@),
    {
        match self.state.orientation() {
            Orientation::Horizontal => self.state.inverted_appearance(),
            Orientation::Vertical => !self.state.inverted_appearance(),
        }
    }

    fn pick(&self, pos: Point) -> (r: i32)
        ensures
            r == pick(self@, pos),
    {
        match self.state.orientation() {
            Orientation::Horizontal => pos.x,
            Orientation::Vertical => pos.y,
        }
    }

    /// The offset of the handle's leading edge.
    pub fn handle_offset(&self) -> (r: i32)
        ensures
            r == spec_handle_offset(self@),
            0 <= r <= groove_span(self@),
    {
        let span = self.span();
        let r = slider_position_from_value(
            self.state.minimum(),
            self.state.maximum(),
            self.state.slider_position(),
            span,
            self.upside_down(),
        );
        r
    }

    /// The handle's rectangle in the widget's coordinates.
    pub fn handle_rect(&self) -> (r: Rect)
        ensures
            r == (match self@.slider.orientation {
                Orientation::Horizontal => Rect {
                    x: spec_handle_offset(self@) as i32,
                    y: 0,
                    width: HANDLE_LENGTH,
                    height: self@.geometry.height,
                },
                Orientation::Vertical => Rect {
                    x: 0,
                    y: spec_handle_offset(self@) as i32,
                    width: self@.geometry.width,
                    height: HANDLE_LENGTH,
                },
            }),
    {
        let offset = self.handle_offset();
        match self.state.orientation() {
            Orientation::Horizontal => Rect { x: offset, y: 0, width: HANDLE_LENGTH, height: self.geometry.height },
            Orientation::Vertical => Rect { x: 0, y: offset, width: self.geometry.width, height: HANDLE_LENGTH },
        }
    }

    /// The value at a leading-edge offset (`pixelPosToRangeValue`).
    pub fn pixel_pos_to_value(&self, pixel: i32) -> (r: i32)
        requires
            self.wf(),
        ensures
            r == spec_pixel_value(self@, pixel as int),
            self@.slider.minimum <= r <= self@.slider.maximum,
    {
        proof {
            self.state.lemma_wf_view();
        }
        slider_value_from_position(
            self.state.minimum(),
            self.state.maximum(),
            pixel,
            self.span(),
            self.upside_down(),
        )
    }

    fn handle_contains(&self, pos: Point) -> (r: bool)
        ensures
            r == on_handle(self@, pos),
    {
        let along = self.pick(pos) as i64;
        let offset = self.handle_offset() as i64;
        along >= offset && along < offset + HANDLE_LENGTH as i64
    }

    /// The values at which ticks are drawn.
    pub fn tick_values(&self) -> (r: Vec<i32>)
        requires
            self.wf(),
        ensures
            r@ == spec_tick_values(self@),
    {
        if self.tick_position == TickPosition::NoTicks {
            return Vec::new();
        }
        proof {
            self.state.lemma_wf_view();
        }
        let min = self.state.minimum();
        let max = self.state.maximum();
        let span = self.span();
        let mut interval = self.tick_interval;
        if interval <= 0 {
            interval = self.state.single_step();
            let step_px = slider_position_from_value(min, max, interval, span, false) as i64
                - slider_position_from_value(min, max, 0, span, false) as i64;
            if step_px < 3 {
                interval = self.state.page_step();
            }
        }
        if interval <= 0 {
            interval = 1;
        }
        let ghost i = interval as int;
        assert(i == effective_tick_interval(self@));
        let d: i64 = max as i64 + 1 - min as i64;
        let q: i64 = d / (interval as i64);
        proof {
            assert(0 <= q <= d) by (nonlinear_arith)
                requires
                    d >= 1,
                    i >= 1,
                    q == (d as int) / i,
            ;
        }
        let count: i64 = if interval == 1 {
            q
        } else {
            q + 1
        };
        assert(count == tick_count(min as int, max as int, i));
        let mut ticks: Vec<i32> = Vec::new();
        let mut v: i64 = min as i64;
        let mut k: i64 = 0;
        while k < count
            invariant
                min <= max,
                i >= 1,
                interval == i,
                0 <= k <= count,
                count <= d + 1,
                d == max + 1 - min,
                count == (if i == 1 {
                    (d as int) / i
                } else {
                    (d as int) / i + 1
                }),
                k < count ==> v == min + k * i,
                ticks@.len() == k,
                forall|j: int|
                    0 <= j < k ==> #[trigger] ticks@[j] == (if min + j * i < max {
                        min + j * i
                    } else {
                        max as int
                    }) as i32,
            decreases count - k,
        {
            let t: i32 = if v < max as i64 {
                v as i32
            } else {
                max
            };
            ticks.push(t);
            proof {
                assert(v + i == min + (k + 1) * i) by (nonlinear_arith)
                    requires
                        v == min + k * i,
                ;
            }
            if k + 1 < count {
                proof {
                    assert((k + 1) * i <= d) by (nonlinear_arith)
                        requires
                            k + 1 < count,
                            count == (if i == 1 {
                                (d as int) / i
                            } else {
                                (d as int) / i + 1
                            }),
                            i >= 1,
                            d >= 1,
                    {
                        assert(((d as int) / i) * i <= d);
                        if i == 1 {
                            assert(d / 1 == d);
                        }
                    }
                }
            }
            v = if k + 1 < count {
                v + interval as i64
            } else {
                v
            };
            k = k + 1;
            proof {
                if k < count {
                    assert(v == min + k * i);
                }
            }
        }
        assert(ticks@ =~= spec_tick_values(self@));
        ticks
    }

    /// A right-button press on an idle slider: the handle jumps under the pointer.
    fn press_right(&mut self, pos: Point)
        requires
            old(self).wf(),
            old(self)@.enabled,
            old(self)@.slider.maximum != old(self)@.slider.minimum,
            old(self)@.pressed_control == SliderPress::Nothing,
            pick(old(self)@, pos) >= i32::MIN + HANDLE_LENGTH,
        ensures
            final(self).wf(),
            final(self)@ == spec_slider_press(old(self)@, pos, 3),
    {
        let center = HANDLE_LENGTH / 2;
        let target = self.pixel_pos_to_value(self.pick(pos) - center);
        self.state.set_slider_position(target);
        self.state.trigger_action(SliderAction::Move);
        self.pressed_control = SliderPress::Handle;
        self.click_offset = center;
        self.state.set_slider_down(true);
    }

    /// A left-button press on an idle slider: grabs the handle, or pages
    /// toward the pointer on the groove.
    fn press_left(&mut self, pos: Point)
        requires
            old(self).wf(),
            old(self)@.enabled,
            old(self)@.slider.maximum != old(self)@.slider.minimum,
            old(self)@.pressed_control == SliderPress::Nothing,
            pick(old(self)@, pos) >= i32::MIN + HANDLE_LENGTH,
        ensures
            final(self).wf(),
            final(self)@ == spec_slider_press(old(self)@, pos, 1),
    {
        if self.handle_contains(pos) {
            self.pressed_control = SliderPress::Handle;
            self.click_offset = self.pick(pos) - self.handle_offset();
            self.state.set_slider_down(true);
        } else {
            self.pressed_control = SliderPress::Groove;
            let press_value = self.pixel_pos_to_value(self.pick(pos) - HANDLE_LENGTH / 2);
            let value = self.state.value();
            if press_value > value {
                self.state.trigger_action(SliderAction::PageStepAdd);
            } else if press_value < value {
                self.state.trigger_action(SliderAction::PageStepSub);
            }
        }
    }

    /// A mouse press ([`spec_slider_press`]).
    pub fn mouse_press_event(&mut self, pos: Point, button: u32)
        requires
            old(self).wf(),
            (button == 1 || button == 3) ==> pick(old(self)@, pos) >= i32::MIN + HANDLE_LENGTH,
        ensures
            final(self).wf(),
            final(self)@ == spec_slider_press(old(self)@, pos, button),
    {
        if !self.enabled || self.state.maximum() == self.state.minimum()
            || self.pressed_control != SliderPress::Nothing {
            return;
        }
        if button == 3 {
            self.press_right(pos);
        } else if button == 1 {
            self.press_left(pos);
        }
    }

    /// A pointer move ([`spec_slider_move`]).
    pub fn mouse_move_event(&mut self, pos: Point)
        requires
            old(self).wf(),
            pick(old(self)@, pos) >= i32::MIN + HANDLE_LENGTH,
        ensures
            final(self).wf(),
            final(self)@ == spec_slider_move(old(self)@, pos),
    {
        if self.pressed_control == SliderPress::Handle {
            let target = self.pixel_pos_to_value(self.pick(pos) - self.click_offset);
            self.state.set_slider_position(target);
            return;
        }
        self.handle_hovered = self.handle_contains(pos);
    }

    /// A mouse release ([`spec_slider_release`]).
    pub fn mouse_release_event(&mut self, button: u32)
        requires
            old(self).wf(),
        ensures
            final(self).wf(),
            final(self)@ == spec_slider_release(old(self)@, button),
    {
        if self.pressed_control == SliderPress::Nothing || !(button == 1 || button == 3) {
            return;
        }
        let was_handle = self.pressed_control == SliderPress::Handle;
        self.pressed_control = SliderPress::Nothing;
        if was_handle {
            self.state.set_slider_down(false);
        }
    }

    /// The pointer left: the handle is no longer hovered.
    pub fn leave_event(&mut self)
        requires
            old(self).wf(),
        ensures
            final(self).wf(),
            final(self)@ == (SliderWidgetView { handle_hovered: false, ..old(self)@ }),
    {
        self.handle_hovered = false;
    }

    /// A key on an enabled slider steps it; returns whether it was used.
    pub fn key_press_event(&mut self, key: u32) -> (r: bool)
        requires
            old(self).wf(),
        ensures
            final(self).wf(),
            !old(self)@.enabled ==> !r && final(self)@ == old(self)@,
            old(self)@.enabled ==> r == key_action(key, old(self)@.slider.inverted_controls) is Some
                && match key_action(key, old(self)@.slider.inverted_controls) {
                Some(a) => final(self)@ == (SliderWidgetView { slider: triggered(old(self)@.slider, a), ..old(self)@ }),
                None => final(self)@ == old(self)@,
            },
    {
        if self.enabled {
            self.state.key_press(key)
        } else {
            false
        }
    }

    pub fn is_enabled(&self) -> (r: bool)
        ensures
            r == self@.enabled,
    {
        self.enabled
    }

    /// Enables or disables the slider; disabling ends a press.
    pub fn set_enabled(&mut self, enabled: bool)
        requires
            old(self).wf(),
        ensures
            final(self).wf(),
            final(self)@ == (if enabled {
                SliderWidgetView { enabled, ..old(self)@ }
            } else {
                SliderWidgetView {
                    enabled,
                    pressed_control: SliderPress::Nothing,
                    slider: pressed_down(old(self)@.slider, false),
                    ..old(self)@
                }
            }),
    {
        self.enabled = enabled;
        if !enabled {
            self.pressed_control = SliderPress::Nothing;
            self.state.set_slider_down(false);
        }
    }

    pub fn has_focus(&self) -> (r: bool)
        ensures
            r == self@.has_focus,
    {
        self.has_focus
    }

    pub fn set_has_focus(&mut self, focus: bool)
        requires
            old(self).wf(),
        ensures
            final(self).wf(),
            final(self)@ == (SliderWidgetView { has_focus: focus, ..old(self)@ }),
    {
        self.has_focus = focus;
    }

    pub fn geometry(&self) -> (r: Rect)
        ensures
            r == self@.geometry,
    {
        self.geometry
    }

    pub fn set_geometry(&mut self, rect: Rect)
        requires
            old(self).wf(),
        ensures
            final(self).wf(),
            final(self)@ == (SliderWidgetView { geometry: rect, ..old(self)@ }),
    {
        self.geometry = rect;
    }

    /// The preferred size ([`slider_size_hint`]).
    pub fn size_hint(&self) -> (r: Size)
        ensures
            r == slider_size_hint(self@),
    {
        let ticks: i32 = match self.tick_position {
            TickPosition::NoTicks => 0,
            TickPosition::TicksAbove => TICK_SPACE,
            TickPosition::TicksBelow => TICK_SPACE,
            TickPosition::TicksBothSides => 2 * TICK_SPACE,
        };
        let thick = 20 + ticks;
        match self.state.orientation() {
            Orientation::Horizontal => Size { width: 84, height: thick },
            Orientation::Vertical => Size { width: thick, height: 84 },
        }
    }

    /// The smallest size: two handles along, the preferred size across.
    pub fn minimum_size_hint(&self) -> (r: Size)
        ensures
            r == (match self@.slider.orientation {
                Orientation::Horizontal => Size { width: 24, height: slider_size_hint(self@).height },
                Orientation::Vertical => Size { width: slider_size_hint(self@).width, height: 24 },
            }),
    {
        let hint = self.size_hint();
        match self.state.orientation() {
            Orientation::Horizontal => Size { width: HANDLE_LENGTH * 2, height: hint.height },
            Orientation::Vertical => Size { width: hint.width, height: HANDLE_LENGTH * 2 },
        }
    }
}

} // verus!
