//! Progress bars (`QProgressBar`): range, value, and the progress text.

use vstd::prelude::*;

use crate::label::Alignment;
use crate::scroll::Orientation;
use crate::size_policy::{transposed_policy, Policy, QSizePolicy};
use crate::text::{chars_of, decimal, push_decimal, str_to_string, string_of};

verus! {

/// Reading direction of the text in a vertical progress bar (`QProgressBar::Direction`).
#[derive(Debug, Clone, Copy, PartialEq, Eq, Structural)]
pub enum ProgressTextDirection {
    TopToBottom,
    BottomToTop,
}

impl Default for ProgressTextDirection {
    fn default() -> (r: ProgressTextDirection)
        ensures
            r == ProgressTextDirection::TopToBottom,
    {
        ProgressTextDirection::TopToBottom
    }
}

/// The decimal digits of `n`, with a minus sign when it is negative.
pub open spec fn signed_decimal(n: int) -> Seq<char> {
    if n < 0 {
        seq!['-'] + decimal((-n) as nat)
    } else {
        decimal(n as nat)
    }
}

/// `format` with `%p` replaced by `p`, `%v` by `v` and `%m` by `m`; every
/// other character, a lone `%` included, is kept.
pub open spec fn expand_format(format: Seq<char>, p: Seq<char>, v: Seq<char>, m: Seq<char>) -> Seq<char>
    decreases format.len(),
{
    if format.len() == 0 {
        Seq::empty()
    } else if format[0] == '%' && format.len() > 1 && (format[1] == 'p' || format[1] == 'v'
        || format[1] == 'm') {
        (if format[1] == 'p' {
            p
        } else if format[1] == 'v' {
            v
        } else {
            m
        }) + expand_format(format.subrange(2, format.len() as int), p, v, m)
    } else {
        seq![format[0]] + expand_format(format.drop_first(), p, v, m)
    }
}

/// A progress bar as plain values.
pub struct ProgressBarView {
    pub minimum: i32,
    pub maximum: i32,
    pub value: i32,
    pub format: Seq<char>,
    pub text_visible: bool,
    pub inverted_appearance: bool,
    pub orientation: Orientation,
    pub alignment: Alignment,
    pub text_direction: ProgressTextDirection,
    pub width: i32,
    pub height: i32,
    pub size_policy: QSizePolicy,
}

/// The value that means "no progress": one below the minimum, or the minimum
/// itself when nothing is below it.
pub open spec fn reset_value(minimum: i32) -> i32 {
    if minimum == i32::MIN {
        i32::MIN
    } else {
        (minimum - 1) as i32
    }
}

/// The progress text (`QProgressBar::text`): empty for the range `0..=0` and
/// when there is no progress; otherwise the format with the percentage
/// (rounded down), the value and the number of steps filled in.
pub open spec fn progress_text(v: ProgressBarView) -> Seq<char> {
    if (v.maximum == 0 && v.minimum == 0) || v.value < v.minimum || (v.value == i32::MIN
        && v.minimum == i32::MIN) {
        Seq::empty()
    } else {
        let total = v.maximum - v.minimum;
        let percent = if total == 0 {
            100
        } else {
            (v.value - v.minimum) * 100 / total
        };
        expand_format(v.format, decimal(percent as nat), signed_decimal(v.value as int), decimal(total as nat))
    }
}

/// `QProgressBar::setRange`: the maximum is raised to the minimum if smaller;
/// a value outside the new range (below "no progress") is reset.
pub open spec fn spec_set_range(v: ProgressBarView, minimum: i32, maximum: i32) -> ProgressBarView {
    if minimum == v.minimum && maximum == v.maximum {
        v
    } else {
        let max = if maximum < minimum {
            minimum
        } else {
            maximum
        };
        let value = if v.value < minimum - 1 || v.value > max {
            reset_value(minimum)
        } else {
            v.value
        };
        ProgressBarView { minimum, maximum: max, value, ..v }
    }
}

/// Whether `QProgressBar::setValue(value)` takes effect: the value differs
/// and lies in the range, or the range is `0..=0`.
pub open spec fn value_accepted(v: ProgressBarView, value: i32) -> bool {
    v.value != value && ((v.minimum <= value <= v.maximum) || (v.maximum == 0 && v.minimum == 0))
}

/// Progress indicator widget.
pub struct ProgressBar {
    minimum: i32,
    maximum: i32,
    value: i32,
    format: String,
    text_visible: bool,
    inverted_appearance: bool,
    orientation: Orientation,
    alignment: Alignment,
    text_direction: ProgressTextDirection,
    width: i32,
    height: i32,
    size_policy: QSizePolicy,
}

impl View for ProgressBar {
    type V = ProgressBarView;

    closed spec fn view(&self) -> ProgressBarView {
        ProgressBarView {
            minimum: self.minimum,
            maximum: self.maximum,
            value: self.value,
            format: self.format@,
            text_visible: self.text_visible,
            inverted_appearance: self.inverted_appearance,
            orientation: self.orientation,
            alignment: self.alignment,
            text_direction: self.text_direction,
            width: self.width,
            height: self.height,
            size_policy: self.size_policy,
        }
    }
}

/// The range is ordered, and the value lies below the maximum unless the
/// range is `0..=0`.
pub open spec fn progress_wf(v: ProgressBarView) -> bool {
    v.minimum <= v.maximum && (v.value <= v.maximum || (v.minimum == 0 && v.maximum == 0))
}

impl ProgressBar {
    /// The invariant of the bar.
    pub open spec fn wf(&self) -> bool {
        progress_wf(self@)
    }

    /// A horizontal bar, 160 by 22, that expands horizontally, with range
    /// `0..=100`, no progress (value -1), the format `"%p%"` and visible text.
    pub fn new() -> (r: ProgressBar)
        ensures
            r.wf(),
            r@ == (ProgressBarView {
                minimum: 0,
                maximum: 100,
                value: -1i32,
                format: seq!['%', 'p', '%'],
                text_visible: true,
                inverted_appearance: false,
                orientation: Orientation::Horizontal,
                alignment: Alignment::Left,
                text_direction: ProgressTextDirection::TopToBottom,
                width: 160,
                height: 22,
                size_policy: QSizePolicy::spec_new(Policy::Expanding, Policy::Fixed),
            }),
    {
        let mut format = String::new();
        crate::text::push_char(&mut format, '%');
        crate::text::push_char(&mut format, 'p');
        crate::text::push_char(&mut format, '%');
        assert(format@ =~= seq!['%', 'p', '%']);
        ProgressBar {
            minimum: 0,
            maximum: 100,
            value: -1,
            format,
            text_visible: true,
            inverted_appearance: false,
            orientation: Orientation::Horizontal,
            alignment: Alignment::Left,
            text_direction: ProgressTextDirection::TopToBottom,
            width: 160,
            height: 22,
            size_policy: QSizePolicy::new(Policy::Expanding, Policy::Fixed),
        }
    }

    pub fn minimum(&self) -> (r: i32)
        ensures
            r == self@.minimum,
    {
        self.minimum
    }

    pub fn maximum(&self) -> (r: i32)
        ensures
            r == self@.maximum,
    {
        self.maximum
    }

    pub fn value(&self) -> (r: i32)
        ensures
            r == self@.value,
    {
        self.value
    }

    /// Sets the range (see [`spec_set_range`]).
    pub fn set_range(&mut self, minimum: i32, maximum: i32)
        requires
            old(self).wf(),
        ensures
            final(self).wf(),
            final(self)@ == spec_set_range(old(self)@, minimum, maximum),
    {
        if minimum == self.minimum && maximum == self.maximum {
            return;
        }
        self.minimum = minimum;
        self.maximum = if maximum < minimum {
            minimum
        } else {
            maximum
        };
        if (self.value as i64) < (self.minimum as i64) - 1 || self.value > self.maximum {
            self.reset();
        }
    }

    /// Sets the minimum, raising the maximum to it if needed.
    pub fn set_minimum(&mut self, minimum: i32)
        requires
            old(self).wf(),
        ensures
            final(self).wf(),
            final(self)@ == spec_set_range(
                old(self)@,
                minimum,
                if old(self)@.maximum < minimum {
                    minimum
                } else {
                    old(self)@.maximum
                },
            ),
    {
        let max = if self.maximum < minimum {
            minimum
        } else {
            self.maximum
        };
        self.set_range(minimum, max);
    }

    /// Sets the maximum, lowering the minimum to it if needed.
    pub fn set_maximum(&mut self, maximum: i32)
        requires
            old(self).wf(),
        ensures
            final(self).wf(),
            final(self)@ == spec_set_range(
                old(self)@,
                if maximum < old(self)@.minimum {
                    maximum
                } else {
                    old(self)@.minimum
                },
                maximum,
            ),
    {
        let min = if maximum < self.minimum {
            maximum
        } else {
            self.minimum
        };
        self.set_range(min, maximum);
    }

    /// Sets the value if [`value_accepted`]; returns whether it changed (and
    /// the value-changed notification is sent).
    pub fn set_value(&mut self, value: i32) -> (changed: bool)
        requires
            old(self).wf(),
        ensures
            final(self).wf(),
            changed == value_accepted(old(self)@, value),
            final(self)@ == if changed {
                ProgressBarView { value, ..old(self)@ }
            } else {
                old(self)@
            },
    {
        let out_of_range = value > self.maximum || value < self.minimum;
        if self.value == value || (out_of_range && (self.maximum != 0 || self.minimum != 0)) {
            return false;
        }
        self.value = value;
        true
    }

    /// Rewinds to "no progress" ([`reset_value`]).
    pub fn reset(&mut self)
        requires
            old(self)@.minimum <= old(self)@.maximum,
        ensures
            final(self)@ == (ProgressBarView { value: reset_value(old(self)@.minimum), ..old(self)@ }),
    {
        self.value = if self.minimum == i32::MIN {
            i32::MIN
        } else {
            self.minimum - 1
        };
    }

    /// Busy (indeterminate) mode: the range is a single value.
    pub fn is_busy(&self) -> (r: bool)
        ensures
            r == (self@.minimum == self@.maximum),
    {
        self.minimum == self.maximum
    }

    pub fn format(&self) -> (r: &str)
        ensures
            r@ == self@.format,
    {
        self.format.as_str()
    }

    /// Sets the text format: `%p` is the percentage, `%v` the value, `%m` the
    /// number of steps.
    pub fn set_format(&mut self, format: &str)
        ensures
            final(self)@ == (ProgressBarView { format: format@, ..old(self)@ }),
    {
        self.format = str_to_string(format);
    }

    /// Restores the format `"%p%"`.
    pub fn reset_format(&mut self)
        ensures
            final(self)@ == (ProgressBarView { format: seq!['%', 'p', '%'], ..old(self)@ }),
    {
        let mut format = String::new();
        crate::text::push_char(&mut format, '%');
        crate::text::push_char(&mut format, 'p');
        crate::text::push_char(&mut format, '%');
        assert(format@ =~= seq!['%', 'p', '%']);
        self.format = format;
    }

    pub fn is_text_visible(&self) -> (r: bool)
        ensures
            r == self@.text_visible,
    {
        self.text_visible
    }

    pub fn set_text_visible(&mut self, visible: bool)
        ensures
            final(self)@ == (ProgressBarView { text_visible: visible, ..old(self)@ }),
    {
        self.text_visible = visible;
    }

    pub fn inverted_appearance(&self) -> (r: bool)
        ensures
            r == self@.inverted_appearance,
    {
        self.inverted_appearance
    }

    pub fn set_inverted_appearance(&mut self, inverted: bool)
        ensures
            final(self)@ == (ProgressBarView { inverted_appearance: inverted, ..old(self)@ }),
    {
        self.inverted_appearance = inverted;
    }

    pub fn orientation(&self) -> (r: Orientation)
        ensures
            r == self@.orientation,
    {
        self.orientation
    }

    /// Changes the orientation; the size policy and the extent are transposed.
    pub fn set_orientation(&mut self, orientation: Orientation)
        ensures
            final(self)@ == if orientation == old(self)@.orientation {
                old(self)@
            } else {
                ProgressBarView {
                    orientation,
                    width: old(self)@.height,
                    height: old(self)@.width,
                    size_policy: QSizePolicy {
                        horizontal: old(self)@.size_policy.vertical,
                        vertical: old(self)@.size_policy.horizontal,
                        horizontal_stretch: old(self)@.size_policy.vertical_stretch,
                        vertical_stretch: old(self)@.size_policy.horizontal_stretch,
                    },
                    ..old(self)@
                }
            },
    {
        if self.orientation == orientation {
            return;
        }
        self.orientation = orientation;
        self.size_policy = transposed_policy(self.size_policy);
        let w = self.width;
        self.width = self.height;
        self.height = w;
    }

    pub fn alignment(&self) -> (r: Alignment)
        ensures
            r == self@.alignment,
    {
        self.alignment
    }

    pub fn set_alignment(&mut self, alignment: Alignment)
        ensures
            final(self)@ == (ProgressBarView { alignment, ..old(self)@ }),
    {
        self.alignment = alignment;
    }

    pub fn text_direction(&self) -> (r: ProgressTextDirection)
        ensures
            r == self@.text_direction,
    {
        self.text_direction
    }

    pub fn set_text_direction(&mut self, direction: ProgressTextDirection)
        ensures
            final(self)@ == (ProgressBarView { text_direction: direction, ..old(self)@ }),
    {
        self.text_direction = direction;
    }

    /// The progress text ([`progress_text`]).
    pub fn text(&self) -> (r: String)
        requires
            self.wf(),
        ensures
            r@ == progress_text(self@),
    {
        if (self.maximum == 0 && self.minimum == 0) || self.value < self.minimum || (self.value
            == i32::MIN && self.minimum == i32::MIN) {
            return String::new();
        }
        let total: i64 = self.maximum as i64 - self.minimum as i64;
        let percent: i64 = if total == 0 {
            100
        } else {
            let num: i64 = (self.value as i64 - self.minimum as i64) * 100;
            assert(0 <= num <= total * 100) by (nonlinear_arith)
                requires
                    num == (self.value as i64 - self.minimum as i64) * 100,
                    0 <= self.value as i64 - self.minimum as i64 <= total,
            ;
            assert(num / total <= 100) by (nonlinear_arith)
                requires
                    0 <= num <= total * 100,
                    total > 0,
            ;
            num / total
        };
        let fmt = chars_of(self.format.as_str());
        let mut p: Vec<char> = Vec::new();
        push_decimal(&mut p, percent as u32);
        let mut v: Vec<char> = Vec::new();
        if self.value < 0 {
            v.push('-');
            let mag: i64 = -(self.value as i64);
            push_decimal(&mut v, mag as u32);
            assert(v@ =~= seq!['-'] + decimal(mag as nat));
        } else {
            push_decimal(&mut v, self.value as u32);
            assert(v@ =~= decimal(self.value as nat));
        }
        let mut m: Vec<char> = Vec::new();
        push_decimal(&mut m, total as u32);
        assert(p@ =~= decimal(percent as nat));
        assert(m@ =~= decimal(total as nat));
        let out = expand_format_exec(&fmt, &p, &v, &m);
        string_of(&out)
    }
}

/// [`expand_format`], computed.
fn expand_format_exec(f: &Vec<char>, p: &Vec<char>, v: &Vec<char>, m: &Vec<char>) -> (r: Vec<char>)
    ensures
        r@ == expand_format(f@, p@, v@, m@),
{
    let mut out: Vec<char> = Vec::new();
    let mut i: usize = 0;
    let n = f.len();
    assert(f@.subrange(0, n as int) =~= f@);
    assert(out@ + expand_format(f@, p@, v@, m@) =~= expand_format(f@, p@, v@, m@));
    while i < n
        invariant
            0 <= i <= n == f@.len(),
            out@ + expand_format(f@.subrange(i as int, n as int), p@, v@, m@) == expand_format(
                f@,
                p@,
                v@,
                m@,
            ),
        decreases n - i,
    {
        let ghost rest = f@.subrange(i as int, n as int);
        if f[i] == '%' && i + 1 < n && (f[i + 1] == 'p' || f[i + 1] == 'v' || f[i + 1] == 'm') {
            let c = f[i + 1];
            let ghost before = out@;
            let sub = if c == 'p' {
                p
            } else if c == 'v' {
                v
            } else {
                m
            };
            let mut j: usize = 0;
            while j < sub.len()
                invariant
                    0 <= j <= sub@.len(),
                    out@ == before + sub@.subrange(0, j as int),
                decreases sub@.len() - j,
            {
                out.push(sub[j]);
                j = j + 1;
                assert(out@ =~= before + sub@.subrange(0, j as int));
            }
            assert(sub@.subrange(0, j as int) =~= sub@);
            assert(rest.subrange(2, rest.len() as int) =~= f@.subrange(i + 2, n as int));
            assert(out@ + expand_format(f@.subrange(i + 2, n as int), p@, v@, m@) =~= before
                + expand_format(rest, p@, v@, m@));
            i = i + 2;
        } else {
            let ghost before = out@;
            out.push(f[i]);
            assert(rest.drop_first() =~= f@.subrange(i + 1, n as int));
            assert(out@ + expand_format(f@.subrange(i + 1, n as int), p@, v@, m@) =~= before
                + expand_format(rest, p@, v@, m@));
            i = i + 1;
        }
    }
    assert(f@.subrange(n as int, n as int) =~= Seq::<char>::empty());
    assert(out@ + Seq::<char>::empty() =~= out@);
    out
}

impl Default for ProgressBar {
    fn default() -> (r: ProgressBar)
        ensures
            r.wf(),
            r@.minimum == 0 && r@.maximum == 100 && r@.value == -1i32,
    {
        ProgressBar::new()
    }
}

/// Once in range, the progress text shows the percentage of the range the
/// value has covered: the whole range gives 100 and its start gives 0.
pub proof fn lemma_progress_percent_bounds(v: ProgressBarView)
    requires
        progress_wf(v),
        v.minimum <= v.value,
        v.minimum < v.maximum,
    ensures
        0 <= (v.value - v.minimum) * 100 / (v.maximum - v.minimum) <= 100,
        v.value == v.maximum ==> (v.value - v.minimum) * 100 / (v.maximum - v.minimum) == 100,
        v.value == v.minimum ==> (v.value - v.minimum) * 100 / (v.maximum - v.minimum) == 0,
{
    let t = v.maximum - v.minimum;
    let d = v.value - v.minimum;
    assert(0 <= d * 100 / t <= 100) by (nonlinear_arith)
        requires
            0 <= d <= t,
            t > 0,
    ;
    if v.value == v.maximum {
        assert(d * 100 / t == 100) by (nonlinear_arith)
            requires
                d == t,
                t > 0,
        ;
    }
}

} // verus!
