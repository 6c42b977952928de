//! Seven-segment LCD number model (`QLCDNumber`): which segments show a
//! character, segment outlines, and right-aligned integer text.

use vstd::prelude::*;

use crate::geometry::{Rect, Size};
use crate::text::{chars_of, decimal, string_of};

verus! {

/// Number base used to display integers (`QLCDNumber::Mode`).
#[derive(Debug, Clone, Copy, PartialEq, Eq, Hash, Structural)]
pub enum LcdMode {
    Hex,
    Dec,
    Oct,
    Bin,
}

impl Default for LcdMode {
    fn default() -> (r: LcdMode)
        ensures
            r == LcdMode::Dec,
    {
        LcdMode::Dec
    }
}

/// Segment rendering style (`QLCDNumber::SegmentStyle`).
#[derive(Debug, Clone, Copy, PartialEq, Eq, Hash, Structural)]
pub enum SegmentStyle {
    /// Raised segments filled with the background color.
    Outline,
    /// Raised segments filled with the foreground color.
    Filled,
    /// Flat segments filled with the foreground color.
    Flat,
}

impl Default for SegmentStyle {
    fn default() -> (r: SegmentStyle)
        ensures
            r == SegmentStyle::Filled,
    {
        SegmentStyle::Filled
    }
}

/// Maximum number of digits (`QLCDNumber::setDigitCount` limit).
pub const MAX_LCD_DIGITS: usize = 99;

/// Segment indices lit for a character (`getSegments` in qlcdnumber.cpp).
///
/// Segments: 0 top, 1 upper-left, 2 upper-right, 3 middle, 4 lower-left,
/// 5 lower-right, 6 bottom, 7 decimal point, 8/9 colon dots.
pub open spec fn spec_segments(ch: char) -> Seq<u8> {
    if ch == '0' {
        seq![0u8, 1u8, 2u8, 4u8, 5u8, 6u8]
    } else if ch == '1' {
        seq![2u8, 5u8]
    } else if ch == '2' {
        seq![0u8, 2u8, 3u8, 4u8, 6u8]
    } else if ch == '3' {
        seq![0u8, 2u8, 3u8, 5u8, 6u8]
    } else if ch == '4' {
        seq![1u8, 2u8, 3u8, 5u8]
    } else if ch == '5' {
        seq![0u8, 1u8, 3u8, 5u8, 6u8]
    } else if ch == '6' {
        seq![0u8, 1u8, 3u8, 4u8, 5u8, 6u8]
    } else if ch == '7' {
        seq![0u8, 2u8, 5u8]
    } else if ch == '8' {
        seq![0u8, 1u8, 2u8, 3u8, 4u8, 5u8, 6u8]
    } else if ch == '9' {
        seq![0u8, 1u8, 2u8, 3u8, 5u8, 6u8]
    } else if ch == 'A' || ch == 'a' {
        seq![0u8, 1u8, 2u8, 3u8, 4u8, 5u8]
    } else if ch == 'B' || ch == 'b' {
        seq![1u8, 3u8, 4u8, 5u8, 6u8]
    } else if ch == 'C' || ch == 'c' {
        seq![0u8, 1u8, 4u8, 6u8]
    } else if ch == 'D' || ch == 'd' {
        seq![2u8, 3u8, 4u8, 5u8, 6u8]
    } else if ch == 'E' || ch == 'e' {
        seq![0u8, 1u8, 3u8, 4u8, 6u8]
    } else if ch == 'F' || ch == 'f' {
        seq![0u8, 1u8, 3u8, 4u8]
    } else if ch == '-' {
        seq![3u8]
    } else if ch == 'O' {
        seq![0u8, 1u8, 2u8, 4u8, 5u8, 6u8]
    } else if ch == 'g' {
        seq![0u8, 1u8, 2u8, 3u8, 5u8, 6u8]
    } else if ch == '.' {
        seq![7u8]
    } else if ch == 'h' {
        seq![1u8, 3u8, 4u8, 5u8]
    } else if ch == 'H' {
        seq![1u8, 2u8, 3u8, 4u8, 5u8]
    } else if ch == 'l' || ch == 'L' {
        seq![1u8, 4u8, 6u8]
    } else if ch == 'o' {
        seq![3u8, 4u8, 5u8, 6u8]
    } else if ch == 'p' || ch == 'P' {
        seq![0u8, 1u8, 2u8, 3u8, 4u8]
    } else if ch == 'r' || ch == 'R' {
        seq![3u8, 4u8]
    } else if ch == 's' || ch == 'S' {
        seq![0u8, 1u8, 3u8, 5u8, 6u8]
    } else if ch == 'u' {
        seq![4u8, 5u8, 6u8]
    } else if ch == 'U' {
        seq![1u8, 2u8, 4u8, 5u8, 6u8]
    } else if ch == 'y' || ch == 'Y' {
        seq![1u8, 2u8, 3u8, 5u8, 6u8]
    } else if ch == ':' {
        seq![8u8, 9u8]
    } else if ch == '\'' {
        seq![0u8, 1u8, 2u8, 3u8]
    } else {
        Seq::empty()
    }
}

/// Segment indices lit for a character; none for characters the display cannot show.
pub fn segments_for(ch: char) -> (r: Vec<u8>)
    ensures
        r@ == spec_segments(ch),
{
    if ch == '0' {
        vec![0u8, 1u8, 2u8, 4u8, 5u8, 6u8]
    } else if ch == '1' {
        vec![2u8, 5u8]
    } else if ch == '2' {
        vec![0u8, 2u8, 3u8, 4u8, 6u8]
    } else if ch == '3' {
        vec![0u8, 2u8, 3u8, 5u8, 6u8]
    } else if ch == '4' {
        vec![1u8, 2u8, 3u8, 5u8]
    } else if ch == '5' {
        vec![0u8, 1u8, 3u8, 5u8, 6u8]
    } else if ch == '6' {
        vec![0u8, 1u8, 3u8, 4u8, 5u8, 6u8]
    } else if ch == '7' {
        vec![0u8, 2u8, 5u8]
    } else if ch == '8' {
        vec![0u8, 1u8, 2u8, 3u8, 4u8, 5u8, 6u8]
    } else if ch == '9' {
        vec![0u8, 1u8, 2u8, 3u8, 5u8, 6u8]
    } else if ch == 'A' || ch == 'a' {
        vec![0u8, 1u8, 2u8, 3u8, 4u8, 5u8]
    } else if ch == 'B' || ch == 'b' {
        vec![1u8, 3u8, 4u8, 5u8, 6u8]
    } else if ch == 'C' || ch == 'c' {
        vec![0u8, 1u8, 4u8, 6u8]
    } else if ch == 'D' || ch == 'd' {
        vec![2u8, 3u8, 4u8, 5u8, 6u8]
    } else if ch == 'E' || ch == 'e' {
        vec![0u8, 1u8, 3u8, 4u8, 6u8]
    } else if ch == 'F' || ch == 'f' {
        vec![0u8, 1u8, 3u8, 4u8]
    } else if ch == '-' {
        vec![3u8]
    } else if ch == 'O' {
        vec![0u8, 1u8, 2u8, 4u8, 5u8, 6u8]
    } else if ch == 'g' {
        vec![0u8, 1u8, 2u8, 3u8, 5u8, 6u8]
    } else if ch == '.' {
        vec![7u8]
    } else if ch == 'h' {
        vec![1u8, 3u8, 4u8, 5u8]
    } else if ch == 'H' {
        vec![1u8, 2u8, 3u8, 4u8, 5u8]
    } else if ch == 'l' || ch == 'L' {
        vec![1u8, 4u8, 6u8]
    } else if ch == 'o' {
        vec![3u8, 4u8, 5u8, 6u8]
    } else if ch == 'p' || ch == 'P' {
        vec![0u8, 1u8, 2u8, 3u8, 4u8]
    } else if ch == 'r' || ch == 'R' {
        vec![3u8, 4u8]
    } else if ch == 's' || ch == 'S' {
        vec![0u8, 1u8, 3u8, 5u8, 6u8]
    } else if ch == 'u' {
        vec![4u8, 5u8, 6u8]
    } else if ch == 'U' {
        vec![1u8, 2u8, 4u8, 5u8, 6u8]
    } else if ch == 'y' || ch == 'Y' {
        vec![1u8, 2u8, 3u8, 5u8, 6u8]
    } else if ch == ':' {
        vec![8u8, 9u8]
    } else if ch == '\'' {
        vec![0u8, 1u8, 2u8, 3u8]
    } else {
        Vec::new()
    }
}

/// Whether `ch` is a decimal digit.
pub open spec fn is_decimal_digit(ch: char) -> bool {
    '0' <= ch <= '9'
}

/// Segment `x` seen after turning the display half a turn: top and bottom
/// swap, upper-left and lower-right swap, upper-right and lower-left swap,
/// and the middle stays.
pub open spec fn half_turn_segment(x: u8) -> u8 {
    (6 - x) as u8
}

/// Segment `x` seen in a mirror held beside the display: left and right swap.
pub open spec fn mirror_segment(x: u8) -> u8 {
    if x == 1 {
        2
    } else if x == 2 {
        1
    } else if x == 4 {
        5
    } else if x == 5 {
        4
    } else {
        x
    }
}

/// The digit that a digit reads as after a half turn, where it reads as one.
pub open spec fn half_turn_digit(ch: char) -> Option<char> {
    if ch == '0' || ch == '2' || ch == '5' || ch == '8' {
        Some(ch)
    } else if ch == '6' {
        Some('9')
    } else if ch == '9' {
        Some('6')
    } else {
        None
    }
}

/// Every digit lights a set of the seven digit segments (0 to 6), listed
/// once each in increasing order.
pub proof fn lemma_digit_segments_are_sorted_digit_segments(ch: char)
    requires
        is_decimal_digit(ch),
    ensures
        forall|i: int, j: int|
            0 <= i < j < spec_segments(ch).len() ==> #[trigger] spec_segments(ch)[i]
                < #[trigger] spec_segments(ch)[j],
        forall|i: int| 0 <= i < spec_segments(ch).len() ==> #[trigger] spec_segments(ch)[i] <= 6,
{
}

/// Two different digits never light the same segments, so every digit can be
/// read back from the display. (The lists are sorted without repetition, so
/// different lists are different sets of segments.)
pub proof fn lemma_distinct_digits_light_distinct_segments(a: char, b: char)
    requires
        is_decimal_digit(a),
        is_decimal_digit(b),
        a != b,
    ensures
        spec_segments(a) != spec_segments(b),
{
}

/// The segments of `s` seen after a half turn of the display, listed in
/// increasing order again when `s` is.
pub open spec fn half_turn(s: Seq<u8>) -> Seq<u8> {
    Seq::new(s.len(), |i: int| half_turn_segment(s[s.len() - 1 - i]))
}

/// The digits 0, 2, 5 and 8 read the same after a half turn of the display,
/// and 6 and 9 read as each other: turning the lit segments of such a digit
/// half a turn gives the segments of the digit it reads as.
pub proof fn lemma_digit_segments_half_turn(ch: char)
    requires
        half_turn_digit(ch) is Some,
    ensures
        half_turn(spec_segments(ch)) == spec_segments(half_turn_digit(ch)->0),
{
    assert(half_turn(spec_segments(ch)) =~= spec_segments(half_turn_digit(ch)->0));
}

/// In a mirror held beside the display, 2 and 5 read as each other, and so do
/// 3 and E.
pub proof fn lemma_digit_segments_mirror(ch: char)
    requires
        ch == '2' || ch == '5' || ch == '3' || ch == 'E',
    ensures
        spec_segments(ch).map_values(|x: u8| mirror_segment(x)) == spec_segments(
            if ch == '2' {
                '5'
            } else if ch == '5' {
                '2'
            } else if ch == '3' {
                'E'
            } else {
                '3'
            },
        ),
{
    let other = if ch == '2' {
        '5'
    } else if ch == '5' {
        '2'
    } else if ch == '3' {
        'E'
    } else {
        '3'
    };
    assert(spec_segments(ch).map_values(|x: u8| mirror_segment(x)) =~= spec_segments(other));
}

/// Shade of a segment edge.
#[derive(Debug, Clone, Copy, PartialEq, Eq, Structural)]
pub enum Shade {
    Light,
    Dark,
}

/// One vertex of a segment outline with the shade of the edge leading to it.
pub type OutlineVertex = (i32, i32, Shade);

/// `a / b` rounded toward zero, as integer division does (for `b > 0`).
pub open spec fn div_toward_zero(a: int, b: int) -> int {
    if a >= 0 {
        a / b
    } else {
        -((-a) / b)
    }
}

/// Offset of a segment's start from the digit position and its vertices
/// relative to that start (the geometry of `QLCDNumberPrivate::drawSegment`).
pub open spec fn segment_shape(segment: u8, seg_len: int, small_point: bool) -> (
    int,
    int,
    Seq<(int, int, Shade)>,
) {
    let w = div_toward_zero(seg_len, 5);
    let l = Shade::Light;
    let d = Shade::Dark;
    if segment == 0 {
        (0, 0, seq![(seg_len - 1, 0, l), (seg_len - w - 1, w, d), (w, w, d), (0, 0, d)])
    } else if segment == 1 {
        (0, 1, seq![(w, w, l), (w, seg_len - div_toward_zero(w, 2) - 2, d), (0, seg_len - 2, d), (0, 0, l)])
    } else if segment == 2 {
        (
            seg_len - 1,
            1,
            seq![(0, seg_len - 2, d), (-w, seg_len - div_toward_zero(w, 2) - 2, d), (-w, w, l), (0, 0, l)],
        )
    } else if segment == 3 {
        let head = seq![(w, -(div_toward_zero(w, 2)), l), (seg_len - w - 1, -(div_toward_zero(w, 2)), l), (seg_len - 1, 0, l)];
        let tail = if w - 2 * div_toward_zero(w, 2) == 1 {
            seq![(seg_len - w - 3, div_toward_zero(w, 2) + 1, d), (w + 2, div_toward_zero(w, 2) + 1, d)]
        } else {
            seq![(seg_len - w - 1, div_toward_zero(w, 2), d), (w, div_toward_zero(w, 2), d)]
        };
        (0, seg_len, head + tail + seq![(0, 0, d)])
    } else if segment == 4 {
        (0, seg_len + 1, seq![(w, div_toward_zero(w, 2), l), (w, seg_len - w - 2, d), (0, seg_len - 2, d), (0, 0, l)])
    } else if segment == 5 {
        (
            seg_len - 1,
            seg_len + 1,
            seq![(0, seg_len - 2, d), (-w, seg_len - w - 2, d), (-w, div_toward_zero(w, 2), l), (0, 0, l)],
        )
    } else if segment == 6 {
        (
            0,
            seg_len * 2,
            seq![(w, -w, l), (seg_len - w - 1, -w, l), (seg_len - 1, 0, l), (0, 0, d)],
        )
    } else {
        let dot = seq![(w, 0, d), (w, -w, d), (0, -w, l), (0, 0, l)];
        if segment == 7 {
            if small_point {
                (seg_len + div_toward_zero(w, 2), seg_len * 2, dot)
            } else {
                (div_toward_zero(seg_len, 2), seg_len * 2, dot)
            }
        } else if segment == 8 {
            (div_toward_zero(seg_len, 2) - div_toward_zero(w, 2) + 1, div_toward_zero(seg_len, 2) + w, dot)
        } else {
            (div_toward_zero(seg_len, 2) - div_toward_zero(w, 2) + 1, div_toward_zero(3 * seg_len, 2) + w, dot)
        }
    }
}

/// Every value the outline computation of a segment forms along the way,
/// before the digit position is added.
pub open spec fn segment_terms(segment: u8, seg_len: int, small_point: bool) -> Seq<int> {
    let w = div_toward_zero(seg_len, 5);
    let hw = div_toward_zero(w, 2);
    let half = div_toward_zero(seg_len, 2);
    if segment == 0 {
        seq![seg_len - 1, seg_len - w, seg_len - w - 1]
    } else if segment == 1 || segment == 2 {
        seq![seg_len - 1, seg_len - hw, seg_len - hw - 2, seg_len - 2]
    } else if segment == 3 {
        seq![seg_len - w, seg_len - w - 1, seg_len - w - 3, seg_len - 1, hw + 1, w + 2]
    } else if segment == 4 || segment == 5 {
        seq![seg_len - 1, seg_len + 1, seg_len - w, seg_len - w - 2, seg_len - 2]
    } else if segment == 6 {
        seq![2 * seg_len, seg_len - w, seg_len - w - 1, seg_len - 1]
    } else if segment == 7 {
        seq![seg_len + hw, 2 * seg_len]
    } else if segment == 8 {
        seq![half - hw, half - hw + 1, half + w]
    } else {
        seq![3 * seg_len, div_toward_zero(3 * seg_len, 2) + w, half - hw, half - hw + 1]
    }
}

/// The outline of a segment can be computed in `i32`: every intermediate
/// value, the start point and every vertex lie within its range.
pub open spec fn segment_outline_fits(segment: u8, pos: (i32, i32), seg_len: int, small_point: bool) -> bool {
    let terms = segment_terms(segment, seg_len, small_point);
    let (dx, dy, rel) = segment_shape(segment, seg_len, small_point);
    &&& forall|i: int| 0 <= i < terms.len() ==> i32::MIN <= #[trigger] terms[i] <= i32::MAX
    &&& i32::MIN <= pos.0 + dx <= i32::MAX
    &&& i32::MIN <= pos.1 + dy <= i32::MAX
    &&& forall|i: int|
        0 <= i < rel.len() ==> i32::MIN <= pos.0 + dx + (#[trigger] rel[i]).0 <= i32::MAX
            && i32::MIN <= pos.1 + dy + rel[i].1 <= i32::MAX
}

/// A segment outline within bounds: the start point and each vertex with the
/// shade of the edge leading to it, all relative to the digit position `pos`.
pub open spec fn spec_segment_outline(segment: u8, pos: (i32, i32), seg_len: int, small_point: bool) -> (
    (int, int),
    Seq<(int, int, Shade)>,
) {
    let (dx, dy, rel) = segment_shape(segment, seg_len, small_point);
    let ox = pos.0 + dx;
    let oy = pos.1 + dy;
    ((ox, oy), rel.map_values(|v: (int, int, Shade)| (ox + v.0, oy + v.1, v.2)))
}

/// The vertices as integers.
pub open spec fn vertices(v: Seq<OutlineVertex>) -> Seq<(int, int, Shade)> {
    v.map_values(|p: OutlineVertex| (p.0 as int, p.1 as int, p.2))
}

/// A list of four outline vertices.
fn quad(a: OutlineVertex, b: OutlineVertex, c: OutlineVertex, d: OutlineVertex) -> (r: Vec<
    OutlineVertex,
>)
    ensures
        r@ == seq![a, b, c, d],
{
    let mut v: Vec<OutlineVertex> = Vec::new();
    v.push(a);
    v.push(b);
    v.push(c);
    v.push(d);
    assert(v@ =~= seq![a, b, c, d]);
    v
}

/// Polygon for a segment: start point plus each vertex with the shade of the
/// edge leading to it.
pub fn segment_outline(segment: u8, pos: (i32, i32), seg_len: i32, small_point: bool) -> (r: (
    (i32, i32),
    Vec<OutlineVertex>,
))
    requires
        segment_outline_fits(segment, pos, seg_len as int, small_point),
    ensures
        ((r.0.0 as int, r.0.1 as int), vertices(r.1@)) == spec_segment_outline(
            segment,
            pos,
            seg_len as int,
            small_point,
        ),
{
    let w = seg_len / 5;
    let nw = -w;
    let nh = -(w / 2);
    proof {
        let t = segment_terms(segment, seg_len as int, small_point);
        assert(t.len() >= 1 ==> i32::MIN <= t[0] <= i32::MAX);
        assert(t.len() >= 2 ==> i32::MIN <= t[1] <= i32::MAX);
        assert(t.len() >= 3 ==> i32::MIN <= t[2] <= i32::MAX);
        assert(t.len() >= 4 ==> i32::MIN <= t[3] <= i32::MAX);
        assert(t.len() >= 5 ==> i32::MIN <= t[4] <= i32::MAX);
        assert(t.len() >= 6 ==> i32::MIN <= t[5] <= i32::MAX);
    }
    let l = Shade::Light;
    let d = Shade::Dark;
    let (dx, dy, rel): (i32, i32, Vec<OutlineVertex>) = if segment == 0 {
        (0, 0, quad((seg_len - 1, 0, l), (seg_len - w - 1, w, d), (w, w, d), (0, 0, d)))
    } else if segment == 1 {
        (0, 1, quad((w, w, l), (w, seg_len - w / 2 - 2, d), (0, seg_len - 2, d), (0, 0, l)))
    } else if segment == 2 {
        (
            seg_len - 1,
            1,
            quad((0, seg_len - 2, d), (nw, seg_len - w / 2 - 2, d), (nw, w, l), (0, 0, l)),
        )
    } else if segment == 3 {
        let mut v: Vec<OutlineVertex> = Vec::new();
        v.push((w, nh, l));
        v.push((seg_len - w - 1, nh, l));
        v.push((seg_len - 1, 0, l));
        if w % 2 == 1 {
            v.push((seg_len - w - 3, w / 2 + 1, d));
            v.push((w + 2, w / 2 + 1, d));
        } else {
            v.push((seg_len - w - 1, w / 2, d));
            v.push((w, w / 2, d));
        }
        v.push((0, 0, d));
        (0, seg_len, v)
    } else if segment == 4 {
        (0, seg_len + 1, quad((w, w / 2, l), (w, seg_len - w - 2, d), (0, seg_len - 2, d), (0, 0, l)))
    } else if segment == 5 {
        (
            seg_len - 1,
            seg_len + 1,
            quad((0, seg_len - 2, d), (nw, seg_len - w - 2, d), (nw, w / 2, l), (0, 0, l)),
        )
    } else if segment == 6 {
        (
            0,
            seg_len * 2,
            quad((w, nw, l), (seg_len - w - 1, nw, l), (seg_len - 1, 0, l), (0, 0, d)),
        )
    } else {
        let dot = quad((w, 0, d), (w, nw, d), (0, nw, l), (0, 0, l));
        if segment == 7 {
            if small_point {
                (seg_len + w / 2, seg_len * 2, dot)
            } else {
                (seg_len / 2, seg_len * 2, dot)
            }
        } else if segment == 8 {
            (seg_len / 2 - w / 2 + 1, seg_len / 2 + w, dot)
        } else {
            (seg_len / 2 - w / 2 + 1, 3 * seg_len / 2 + w, dot)
        }
    };
    let ghost shape = segment_shape(segment, seg_len as int, small_point);
    assert(dx == shape.0 && dy == shape.1 && vertices(rel@) =~= shape.2);
    let ox = pos.0 + dx;
    let oy = pos.1 + dy;
    assert forall|j: int|
        0 <= j < rel@.len() implies i32::MIN <= ox + (#[trigger] rel@[j]).0 <= i32::MAX
            && i32::MIN <= oy + rel@[j].1 <= i32::MAX by {
        assert(vertices(rel@)[j] == shape.2[j]);
    }
    let mut edges: Vec<OutlineVertex> = Vec::new();
    let mut i: usize = 0;
    while i < rel.len()
        invariant
            0 <= i <= rel@.len(),
            rel@.len() <= 6,
            vertices(rel@) == shape.2,
            ox == pos.0 + shape.0,
            oy == pos.1 + shape.1,
            forall|j: int|
                0 <= j < rel@.len() ==> i32::MIN <= ox + (#[trigger] rel@[j]).0 <= i32::MAX
                    && i32::MIN <= oy + rel@[j].1 <= i32::MAX,
            edges@.len() == i,
            forall|j: int|
                0 <= j < i ==> (#[trigger] edges@[j]).0 == ox + rel@[j].0 && edges@[j].1 == oy
                    + rel@[j].1 && edges@[j].2 == rel@[j].2,
        decreases rel@.len() - i,
    {
        let (x, y, s) = rel[i];
        edges.push((ox + x, oy + y, s));
        i = i + 1;
    }
    proof {
        let target = spec_segment_outline(segment, pos, seg_len as int, small_point).1;
        assert forall|j: int| 0 <= j < edges@.len() implies vertices(edges@)[j] == target[j] by {
            assert(vertices(rel@)[j] == shape.2[j]);
        }
        assert(vertices(edges@) =~= target);
    }
    ((ox, oy), edges)
}

/// Number base of a display mode.
pub open spec fn mode_base(mode: LcdMode) -> nat {
    match mode {
        LcdMode::Hex => 16,
        LcdMode::Dec => 10,
        LcdMode::Oct => 8,
        LcdMode::Bin => 2,
    }
}

/// The lower-case digit character of `d` (below sixteen).
pub open spec fn digit_char(d: nat) -> char {
    if d < 10 {
        (d + 0x30) as char
    } else {
        (d - 10 + 0x61) as char
    }
}

/// The digits of `n` in base `b`, most significant first (`{:x}`, `{}`, `{:o}`, `{:b}`).
pub open spec fn base_digits(n: nat, b: nat) -> Seq<char>
    recommends
        b >= 2,
    decreases n,
{
    if b < 2 || n < b {
        seq![digit_char(n)]
    } else {
        proof {
            assert(n / b < n) by (nonlinear_arith)
                requires
                    b >= 2,
                    n >= b,
            ;
        }
        base_digits(n / b, b).push(digit_char(n % b))
    }
}

/// The value of a digit character (`0`-`9`, then `a`-`f`), or -1.
pub open spec fn digit_value(c: char) -> int {
    if '0' <= c <= '9' {
        c as int - 0x30
    } else if 'a' <= c <= 'f' {
        c as int - 0x61 + 10
    } else {
        -1
    }
}

/// The number that digit characters spell in base `b`, most significant first.
pub open spec fn digits_value(s: Seq<char>, b: nat) -> int
    decreases s.len(),
{
    if s.len() == 0 {
        0
    } else {
        digits_value(s.drop_last(), b) * b + digit_value(s.last())
    }
}

/// The digits of `n` in base `b` are digits of that base, start with a zero
/// only for zero itself, and spell `n` again when read back.
pub proof fn lemma_base_digits_read_back(n: nat, b: nat)
    requires
        b == 2 || b == 8 || b == 10 || b == 16,
    ensures
        base_digits(n, b).len() >= 1,
        forall|i: int|
            0 <= i < base_digits(n, b).len() ==> 0 <= #[trigger] digit_value(base_digits(n, b)[i])
                < b,
        base_digits(n, b)[0] == '0' ==> n == 0,
        digits_value(base_digits(n, b), b) == n,
    decreases n,
{
    let d = (n % b) as nat;
    assert(d < 16);
    assert(digit_value(digit_char(d)) == d);
    if n >= b {
        let q = n / b;
        assert(q < n && q >= 1) by (nonlinear_arith)
            requires
                b >= 2,
                n >= b,
                q == n / b,
        ;
        lemma_base_digits_read_back(q, b);
        let s = base_digits(n, b);
        assert(s == base_digits(q, b).push(digit_char(d)));
        assert(s.drop_last() =~= base_digits(q, b));
        assert(s[0] == base_digits(q, b)[0]);
        assert(q * b + d == n) by (nonlinear_arith)
            requires
                b >= 2,
                q == n / b,
                d == n % b,
        ;
        assert forall|i: int| 0 <= i < s.len() implies 0 <= #[trigger] digit_value(s[i]) < b by {
            if i < s.len() - 1 {
                assert(s[i] == base_digits(q, b)[i]);
            }
        }
        assert(s.last() == digit_char(d));
        assert(digits_value(s, b) == digits_value(base_digits(q, b), b) * b + digit_value(
            digit_char(d),
        ));
    } else {
        assert(d == n) by (nonlinear_arith)
            requires
                n < b,
                d == n % b,
        ;
        let s = base_digits(n, b);
        assert(s == seq![digit_char(n)]);
        assert(s.drop_last() =~= Seq::<char>::empty());
        assert(digits_value(s, b) == digits_value(s.drop_last(), b) * b + digit_value(s.last()));
        assert(digits_value(Seq::<char>::empty(), b) == 0);
    }
}

/// `n` spaces.
pub open spec fn spaces(n: nat) -> Seq<char> {
    Seq::new(n, |i: int| ' ')
}

/// The integer text of `int2string`: the magnitude's digits right-aligned to
/// `width`, a minus sign taking the position before the first digit (or
/// prepended when there is none).
pub open spec fn lcd_int_text(number: int, mode: LcdMode, width: nat) -> Seq<char> {
    let m = if number < 0 {
        -number
    } else {
        number
    };
    let d = base_digits(m as nat, mode_base(mode));
    if number < 0 {
        if d.len() < width {
            spaces((width - d.len() - 1) as nat) + seq!['-'] + d
        } else {
            seq!['-'] + d
        }
    } else if d.len() < width {
        spaces((width - d.len()) as nat) + d
    } else {
        d
    }
}

/// The integer text is the number right-aligned: leading spaces, a minus sign
/// for a negative number, then digits of the mode's base without a leading
/// zero that spell the number's magnitude. Spaces are only added to reach the
/// width, and then the text is exactly as wide as asked.
pub proof fn lemma_lcd_int_text_is_aligned_number(number: int, mode: LcdMode, width: nat)
    ensures
        exists|pad: nat, ds: Seq<char>|
            {
                &&& #[trigger] lcd_int_text(number, mode, width) == spaces(pad) + (if number < 0 {
                    seq!['-']
                } else {
                    Seq::<char>::empty()
                }) + ds
                &&& digits_value(ds, mode_base(mode)) == (if number < 0 {
                    -number
                } else {
                    number
                })
                &&& ds.len() >= 1
                &&& (ds[0] == '0' ==> number == 0)
                &&& forall|i: int|
                    0 <= i < ds.len() ==> 0 <= #[trigger] digit_value(ds[i]) < mode_base(mode)
                &&& (pad > 0 ==> lcd_int_text(number, mode, width).len() == width)
            },
{
    let m = if number < 0 {
        -number
    } else {
        number
    };
    let b = mode_base(mode);
    let d = base_digits(m as nat, b);
    lemma_base_digits_read_back(m as nat, b);
    let sign = if number < 0 {
        seq!['-']
    } else {
        Seq::<char>::empty()
    };
    let t = lcd_int_text(number, mode, width);
    let pad: nat = if number < 0 {
        if d.len() < width {
            (width - d.len() - 1) as nat
        } else {
            0
        }
    } else if d.len() < width {
        (width - d.len()) as nat
    } else {
        0
    };
    if number < 0 {
        assert(t =~= spaces(pad) + sign + d);
    } else {
        assert(t =~= spaces(pad) + sign + d);
    }
}

/// Appends the digits of `n` in base `b` to `out`.
fn push_base_digits(out: &mut Vec<char>, n: u32, b: u32)
    requires
        b == 2 || b == 8 || b == 10 || b == 16,
    ensures
        final(out)@ == old(out)@ + base_digits(n as nat, b as nat),
    decreases n,
{
    if n >= b {
        push_base_digits(out, n / b, b);
    }
    let d = n % b;
    let c = if d < 10 {
        ((d + 0x30) as u8) as char
    } else {
        ((d - 10 + 0x61) as u8) as char
    };
    out.push(c);
}

/// Formats an integer right-aligned in `ndigits` positions (`int2string`);
/// `None` on overflow, when the text needs more than `ndigits` characters.
pub fn int_to_lcd_string(number: i32, mode: LcdMode, ndigits: usize) -> (r: Option<String>)
    ensures
        r matches Some(s) ==> s@ == lcd_int_text(number as int, mode, ndigits as nat),
        r is Some <==> lcd_int_text(number as int, mode, ndigits as nat).len() <= ndigits,
{
    let magnitude: u32 = if number < 0 {
        if number == i32::MIN {
            0x8000_0000
        } else {
            (-number) as u32
        }
    } else {
        number as u32
    };
    let base: u32 = match mode {
        LcdMode::Hex => 16,
        LcdMode::Dec => 10,
        LcdMode::Oct => 8,
        LcdMode::Bin => 2,
    };
    let mut digits: Vec<char> = Vec::new();
    push_base_digits(&mut digits, magnitude, base);
    assert(digits@ =~= base_digits(magnitude as nat, base as nat));
    let ghost target = lcd_int_text(number as int, mode, ndigits as nat);
    let dl = digits.len();
    let mut text: Vec<char> = Vec::new();
    let pad: usize = if dl < ndigits {
        if number < 0 {
            ndigits - dl - 1
        } else {
            ndigits - dl
        }
    } else {
        0
    };
    let mut i: usize = 0;
    while i < pad
        invariant
            0 <= i <= pad,
            text@ == spaces(i as nat),
        decreases pad - i,
    {
        text.push(' ');
        i = i + 1;
        assert(text@ =~= spaces(i as nat));
    }
    if number < 0 {
        text.push('-');
    }
    let ghost head = text@;
    let mut j: usize = 0;
    while j < dl
        invariant
            0 <= j <= dl == digits@.len(),
            text@ == head + digits@.subrange(0, j as int),
        decreases dl - j,
    {
        text.push(digits[j]);
        j = j + 1;
        assert(text@ =~= head + digits@.subrange(0, j as int));
    }
    assert(digits@.subrange(0, dl as int) =~= digits@);
    assert(text@ =~= target);
    if text.len() <= ndigits {
        Some(string_of(&text))
    } else {
        None
    }
}

/// `s` without trailing characters equal to `c`.
pub open spec fn trim_end(s: Seq<char>, c: char) -> Seq<char>
    decreases s.len(),
{
    if s.len() > 0 && s.last() == c {
        trim_end(s.drop_last(), c)
    } else {
        s
    }
}

/// A decimal text without the zeros ending its fraction (and without the
/// point when nothing is left after it); text without a point is kept.
pub open spec fn spec_strip_fraction_zeros(t: Seq<char>) -> Seq<char> {
    if t.contains('.') {
        trim_end(trim_end(t, '0'), '.')
    } else {
        t
    }
}

/// Length of `s[..n]` once trailing `c` are trimmed.
fn trimmed_len(s: &Vec<char>, n: usize, c: char) -> (r: usize)
    requires
        n <= s@.len(),
    ensures
        r <= n,
        s@.subrange(0, r as int) == trim_end(s@.subrange(0, n as int), c),
{
    let mut k = n;
    while k > 0 && s[k - 1] == c
        invariant
            k <= n <= s@.len(),
            trim_end(s@.subrange(0, k as int), c) == trim_end(s@.subrange(0, n as int), c),
        decreases k,
    {
        assert(s@.subrange(0, k as int).drop_last() =~= s@.subrange(0, k as int - 1));
        k = k - 1;
    }
    k
}

/// Strips the zeros ending the fraction of a decimal text, and the point when
/// nothing is left after it.
pub fn strip_fraction_zeros(text: &str) -> (r: &str)
    ensures
        r@ == spec_strip_fraction_zeros(text@),
{
    let chars = crate::text::chars_of(text);
    let n = chars.len();
    let mut has_point = false;
    let mut i: usize = 0;
    while i < n
        invariant
            0 <= i <= n == chars@.len(),
            chars@ == text@,
            has_point == exists|j: int| 0 <= j < i && chars@[j] == '.',
        decreases n - i,
    {
        if chars[i] == '.' {
            has_point = true;
        }
        i = i + 1;
    }
    assert(chars@.subrange(0, n as int) =~= text@);
    if !has_point {
        return text;
    }
    let a = trimmed_len(&chars, n, '0');
    let b = trimmed_len(&chars, a, '.');
    vstd::string::StrSliceExecFns::substring_char(text, 0, b)
}


/// Characters laid out one per digit position with small decimal points:
/// the cells used so far, whether the last character was a point, and
/// whether the positions ran out.
pub struct PointLayout {
    pub chars: Seq<char>,
    pub points: Seq<bool>,
    pub last_was_point: bool,
    pub stopped: bool,
}

/// One character of small-point layout in `n` positions: a point marks the
/// digit before it, or takes a blank position of its own after another
/// point (or at the start); a digit takes the next position; once every
/// position is used, the rest is dropped.
pub open spec fn layout_step(s: PointLayout, ch: char, n: nat) -> PointLayout {
    if s.stopped {
        s
    } else if ch == '.' {
        if s.last_was_point {
            if s.chars.len() >= n {
                PointLayout { stopped: true, ..s }
            } else {
                PointLayout { chars: s.chars.push(' '), points: s.points.push(true), last_was_point: true, stopped: false }
            }
        } else {
            PointLayout {
                points: s.points.update(s.points.len() - 1, true),
                last_was_point: true,
                ..s
            }
        }
    } else if s.chars.len() >= n {
        PointLayout { stopped: true, ..s }
    } else {
        PointLayout { chars: s.chars.push(ch), points: s.points.push(false), last_was_point: false, stopped: false }
    }
}

/// Small-point layout of all of `text` in `n` positions.
pub open spec fn point_layout(text: Seq<char>, n: nat) -> PointLayout
    decreases text.len(),
{
    if text.len() == 0 {
        PointLayout { chars: Seq::empty(), points: Seq::empty(), last_was_point: true, stopped: false }
    } else {
        layout_step(point_layout(text.drop_last(), n), text.last(), n)
    }
}

/// `n` cleared decimal points.
pub open spec fn no_points(n: nat) -> Seq<bool> {
    Seq::new(n, |i: int| false)
}

/// The digit positions and decimal points showing `text` in `n` positions:
/// with full-width points the last `n` characters right-aligned; with small
/// points the layout right-aligned.
pub open spec fn display_cells(text: Seq<char>, n: nat, small_point: bool) -> (Seq<char>, Seq<bool>) {
    if !small_point {
        let take = if text.len() < n {
            text.len()
        } else {
            n
        };
        (spaces((n - take) as nat) + text.subrange(text.len() - take, text.len() as int), no_points(n))
    } else {
        let l = point_layout(text, n);
        let used = l.chars.len();
        (spaces((n - used) as nat) + l.chars, no_points((n - used) as nat) + l.points)
    }
}

/// A number display as plain values.
pub struct LcdView {
    pub ndigits: nat,
    pub digits: Seq<char>,
    pub points: Seq<bool>,
    pub mode: LcdMode,
    pub small_point: bool,
    pub fill: bool,
    pub shadow: bool,
    pub geometry: Rect,
    pub visible: bool,
    pub enabled: bool,
}

/// At most 99 positions, one character and one point flag each.
pub open spec fn lcd_wf(v: LcdView) -> bool {
    &&& v.ndigits <= MAX_LCD_DIGITS
    &&& v.digits.len() == v.ndigits
    &&& v.points.len() == v.ndigits
}

/// Showing `text` (`internalSetString`): the positions change unless they
/// (and, with small points, the points) already show it.
pub open spec fn spec_set_display(v: LcdView, text: Seq<char>) -> LcdView {
    let (b, p) = display_cells(text, v.ndigits, v.small_point);
    if b == v.digits && (!v.small_point || p == v.points) {
        v
    } else {
        LcdView {
            digits: b,
            points: if v.small_point {
                p
            } else {
                v.points
            },
            ..v
        }
    }
}

/// The segment style of the fill and shadow flags.
pub open spec fn style_of(fill: bool, shadow: bool) -> SegmentStyle {
    if !fill {
        SegmentStyle::Outline
    } else if shadow {
        SegmentStyle::Filled
    } else {
        SegmentStyle::Flat
    }
}

/// The preferred size: 9 pixels per position (and one more position for
/// full-width points) plus 10, by 23.
pub open spec fn lcd_size_hint(ndigits: nat, small_point: bool) -> Size {
    Size {
        width: (10 + 9 * (ndigits + if small_point {
            0nat
        } else {
            1nat
        })) as i32,
        height: 23,
    }
}

/// Once the positions run out, further characters change nothing.
proof fn lemma_stopped_stays(text: Seq<char>, k: int, n: nat)
    requires
        0 <= k <= text.len(),
        point_layout(text.subrange(0, k), n).stopped,
    ensures
        point_layout(text, n) == point_layout(text.subrange(0, k), n),
    decreases text.len() - k,
{
    if k < text.len() {
        let s = text.subrange(0, k + 1);
        assert(s.drop_last() =~= text.subrange(0, k));
        lemma_stopped_stays(text, k + 1, n);
    } else {
        assert(text.subrange(0, k) =~= text);
    }
}

/// A seven-segment number display (`QLCDNumber`).
pub struct LCDNumber {
    ndigits: usize,
    digits: Vec<char>,
    points: Vec<bool>,
    mode: LcdMode,
    small_point: bool,
    fill: bool,
    shadow: bool,
    geometry: Rect,
    visible: bool,
    enabled: bool,
}

impl View for LCDNumber {
    type V = LcdView;

    closed spec fn view(&self) -> LcdView {
        LcdView {
            ndigits: self.ndigits as nat,
            digits: self.digits@,
            points: self.points@,
            mode: self.mode,
            small_point: self.small_point,
            fill: self.fill,
            shadow: self.shadow,
            geometry: self.geometry,
            visible: self.visible,
            enabled: self.enabled,
        }
    }
}

/// `n` copies of `c`.
fn repeat_char(c: char, n: usize) -> (r: Vec<char>)
    ensures
        r@ == Seq::new(n as nat, |i: int| c),
{
    let mut v: Vec<char> = Vec::new();
    let mut i: usize = 0;
    while i < n
        invariant
            0 <= i <= n,
            v@ == Seq::new(i as nat, |j: int| c),
        decreases n - i,
    {
        v.push(c);
        i = i + 1;
        assert(v@ =~= Seq::new(i as nat, |j: int| c));
    }
    v
}

/// `n` copies of `b`.
fn repeat_bool(b: bool, n: usize) -> (r: Vec<bool>)
    ensures
        r@ == Seq::new(n as nat, |i: int| b),
{
    let mut v: Vec<bool> = Vec::new();
    let mut i: usize = 0;
    while i < n
        invariant
            0 <= i <= n,
            v@ == Seq::new(i as nat, |j: int| b),
        decreases n - i,
    {
        v.push(b);
        i = i + 1;
        assert(v@ =~= Seq::new(i as nat, |j: int| b));
    }
    v
}

/// `a` followed by `b`.
fn concat_chars(a: Vec<char>, b: &Vec<char>) -> (r: Vec<char>)
    ensures
        r@ == a@ + b@,
{
    let mut out = a;
    let ghost start = out@;
    let mut i: usize = 0;
    while i < b.len()
        invariant
            0 <= i <= b@.len(),
            out@ == start + b@.subrange(0, i as int),
        decreases b@.len() - i,
    {
        out.push(b[i]);
        i = i + 1;
        assert(out@ =~= start + b@.subrange(0, i as int));
    }
    assert(b@.subrange(0, i as int) =~= b@);
    out
}

/// `a` followed by `b`.
fn concat_bools(a: Vec<bool>, b: &Vec<bool>) -> (r: Vec<bool>)
    ensures
        r@ == a@ + b@,
{
    let mut out = a;
    let ghost start = out@;
    let mut i: usize = 0;
    while i < b.len()
        invariant
            0 <= i <= b@.len(),
            out@ == start + b@.subrange(0, i as int),
        decreases b@.len() - i,
    {
        out.push(b[i]);
        i = i + 1;
        assert(out@ =~= start + b@.subrange(0, i as int));
    }
    assert(b@.subrange(0, i as int) =~= b@);
    out
}

/// Whether two character vectors hold the same characters.
fn same_char_vec(a: &Vec<char>, b: &Vec<char>) -> (r: bool)
    ensures
        r == (a@ == b@),
{
    if a.len() != b.len() {
        return false;
    }
    let mut i: usize = 0;
    while i < a.len()
        invariant
            0 <= i <= a@.len() == b@.len(),
            forall|j: int| 0 <= j < i ==> a@[j] == b@[j],
        decreases a@.len() - i,
    {
        if a[i] != b[i] {
            return false;
        }
        i = i + 1;
    }
    assert(a@ =~= b@);
    true
}

/// Whether two flag vectors hold the same flags.
fn same_bool_vec(a: &Vec<bool>, b: &Vec<bool>) -> (r: bool)
    ensures
        r == (a@ == b@),
{
    if a.len() != b.len() {
        return false;
    }
    let mut i: usize = 0;
    while i < a.len()
        invariant
            0 <= i <= a@.len() == b@.len(),
            forall|j: int| 0 <= j < i ==> a@[j] == b@[j],
        decreases a@.len() - i,
    {
        if a[i] != b[i] {
            return false;
        }
        i = i + 1;
    }
    assert(a@ =~= b@);
    true
}

/// The small-point layout of `text` in `n` positions.
fn layout_points(text: &Vec<char>, n: usize) -> (r: (Vec<char>, Vec<bool>))
    ensures
        r.0@ == point_layout(text@, n as nat).chars,
        r.1@ == point_layout(text@, n as nat).points,
        r.0@.len() == r.1@.len() <= n,
{
    let mut cells: Vec<char> = Vec::new();
    let mut pts: Vec<bool> = Vec::new();
    let mut last_was_point = true;
    let mut i: usize = 0;
    while i < text.len()
        invariant
            0 <= i <= text@.len(),
            point_layout(text@.subrange(0, i as int), n as nat) == (PointLayout {
                chars: cells@,
                points: pts@,
                last_was_point,
                stopped: false,
            }),
            cells@.len() == pts@.len() <= n,
            !last_was_point ==> cells@.len() > 0,
        decreases text@.len() - i,
    {
        let ch = text[i];
        proof {
            let s = text@.subrange(0, i + 1);
            assert(s.drop_last() =~= text@.subrange(0, i as int));
        }
        if ch == '.' {
            if last_was_point {
                if cells.len() >= n {
                    proof {
                        lemma_stopped_stays(text@, i + 1, n as nat);
                    }
                    return (cells, pts);
                }
                cells.push(' ');
                pts.push(true);
            } else {
                let k = pts.len() - 1;
                pts.set(k, true);
            }
            last_was_point = true;
        } else {
            if cells.len() >= n {
                proof {
                    lemma_stopped_stays(text@, i + 1, n as nat);
                }
                return (cells, pts);
            }
            cells.push(ch);
            pts.push(false);
            last_was_point = false;
        }
        i = i + 1;
    }
    assert(text@.subrange(0, i as int) =~= text@);
    (cells, pts)
}

impl LCDNumber {
    /// The display's invariant.
    pub open spec fn wf(&self) -> bool {
        lcd_wf(self@)
    }

    /// A five-position decimal display showing `0`.
    pub fn new() -> (r: Self)
        ensures
            r.wf(),
            r@ == Self::spec_fresh(5),
    {
        Self::with_digit_count(5)
    }

    /// A fresh display of `digits` positions (at most 99): blank but for a
    /// `0` in the last one, decimal, full-width points, filled segments,
    /// sized to its preferred size.
    pub open spec fn spec_fresh(digits: nat) -> LcdView {
        let n: nat = if digits < MAX_LCD_DIGITS {
            digits
        } else {
            MAX_LCD_DIGITS as nat
        };
        LcdView {
            ndigits: n,
            digits: if n == 0 {
                Seq::empty()
            } else {
                spaces((n - 1) as nat).push('0')
            },
            points: no_points(n),
            mode: LcdMode::Dec,
            small_point: false,
            fill: true,
            shadow: true,
            geometry: Rect { x: 0, y: 0, width: lcd_size_hint(n, false).width, height: 23 },
            visible: true,
            enabled: true,
        }
    }

    /// A display of `digits` positions, at most 99.
    pub fn with_digit_count(digits: usize) -> (r: Self)
        ensures
            r.wf(),
            r@ == Self::spec_fresh(digits as nat),
    {
        let n = if digits < MAX_LCD_DIGITS {
            digits
        } else {
            MAX_LCD_DIGITS
        };
        let mut chars = repeat_char(' ', n);
        if n > 0 {
            chars.set(n - 1, '0');
            assert(chars@ =~= spaces((n - 1) as nat).push('0'));
        } else {
            assert(chars@ =~= Seq::<char>::empty());
        }
        let pts = repeat_bool(false, n);
        let width = 10 + 9 * (n as i32 + 1);
        LCDNumber {
            ndigits: n,
            digits: chars,
            points: pts,
            mode: LcdMode::Dec,
            small_point: false,
            fill: true,
            shadow: true,
            geometry: Rect { x: 0, y: 0, width, height: 23 },
            visible: true,
            enabled: true,
        }
    }

    /// The number of positions.
    pub fn digit_count(&self) -> (r: usize)
        ensures
            r == self@.ndigits,
    {
        self.ndigits
    }

    /// Changes the number of positions (at most 99), keeping the
    /// right-aligned content: blanks are added, or positions dropped, on the
    /// left. Returns whether the value must be displayed again, which is so
    /// when the display had no positions.
    pub fn set_digit_count(&mut self, digits: usize) -> (redisplay: bool)
        requires
            old(self).wf(),
        ensures
            final(self).wf(),
            ({
                let o = old(self)@;
                let d: nat = if digits < MAX_LCD_DIGITS {
                    digits as nat
                } else {
                    MAX_LCD_DIGITS as nat
                };
                if d == o.ndigits {
                    final(self)@ == o && !redisplay
                } else {
                    &&& redisplay == (o.ndigits == 0)
                    &&& final(self)@ == (LcdView {
                        ndigits: d,
                        digits: if d > o.ndigits {
                            spaces((d - o.ndigits) as nat) + o.digits
                        } else {
                            o.digits.subrange(o.ndigits - d, o.ndigits as int)
                        },
                        points: if d > o.ndigits {
                            no_points((d - o.ndigits) as nat) + o.points
                        } else {
                            o.points.subrange(o.ndigits - d, o.ndigits as int)
                        },
                        ..o
                    })
                }
            }),
    {
        let d = if digits < MAX_LCD_DIGITS {
            digits
        } else {
            MAX_LCD_DIGITS
        };
        if d == self.ndigits {
            return false;
        }
        let redisplay = self.ndigits == 0;
        if d > self.ndigits {
            let grow = d - self.ndigits;
            let c = concat_chars(repeat_char(' ', grow), &self.digits);
            let p = concat_bools(repeat_bool(false, grow), &self.points);
            self.digits = c;
            self.points = p;
        } else {
            let shrink = self.ndigits - d;
            let mut c: Vec<char> = Vec::new();
            let mut p: Vec<bool> = Vec::new();
            let mut i: usize = shrink;
            while i < self.ndigits
                invariant
                    shrink <= i <= self.ndigits,
                    self.digits@.len() == self.ndigits,
                    self.points@.len() == self.ndigits,
                    c@ == self.digits@.subrange(shrink as int, i as int),
                    p@ == self.points@.subrange(shrink as int, i as int),
                decreases self.ndigits - i,
            {
                c.push(self.digits[i]);
                p.push(self.points[i]);
                i = i + 1;
                assert(c@ =~= self.digits@.subrange(shrink as int, i as int));
                assert(p@ =~= self.points@.subrange(shrink as int, i as int));
            }
            self.digits = c;
            self.points = p;
        }
        self.ndigits = d;
        redisplay
    }

    pub fn mode(&self) -> (r: LcdMode)
        ensures
            r == self@.mode,
    {
        self.mode
    }

    /// Changes the number base; the caller shows the value again in it.
    pub fn set_mode(&mut self, mode: LcdMode)
        requires
            old(self).wf(),
        ensures
            final(self).wf(),
            final(self)@ == (LcdView { mode, ..old(self)@ }),
    {
        self.mode = mode;
    }

    pub fn set_hex_mode(&mut self)
        requires
            old(self).wf(),
        ensures
            final(self).wf(),
            final(self)@ == (LcdView { mode: LcdMode::Hex, ..old(self)@ }),
    {
        self.set_mode(LcdMode::Hex);
    }

    pub fn set_dec_mode(&mut self)
        requires
            old(self).wf(),
        ensures
            final(self).wf(),
            final(self)@ == (LcdView { mode: LcdMode::Dec, ..old(self)@ }),
    {
        self.set_mode(LcdMode::Dec);
    }

    pub fn set_oct_mode(&mut self)
        requires
            old(self).wf(),
        ensures
            final(self).wf(),
            final(self)@ == (LcdView { mode: LcdMode::Oct, ..old(self)@ }),
    {
        self.set_mode(LcdMode::Oct);
    }

    pub fn set_bin_mode(&mut self)
        requires
            old(self).wf(),
        ensures
            final(self).wf(),
            final(self)@ == (LcdView { mode: LcdMode::Bin, ..old(self)@ }),
    {
        self.set_mode(LcdMode::Bin);
    }

    /// Whether points sit between digits (`true`) or take positions of their own.
    pub fn small_decimal_point(&self) -> (r: bool)
        ensures
            r == self@.small_point,
    {
        self.small_point
    }

    pub fn set_small_decimal_point(&mut self, small: bool)
        requires
            old(self).wf(),
        ensures
            final(self).wf(),
            final(self)@ == (LcdView { small_point: small, ..old(self)@ }),
    {
        self.small_point = small;
    }

    /// The segment style.
    pub fn segment_style(&self) -> (r: SegmentStyle)
        ensures
            r == style_of(self@.fill, self@.shadow),
    {
        if !self.fill {
            SegmentStyle::Outline
        } else if self.shadow {
            SegmentStyle::Filled
        } else {
            SegmentStyle::Flat
        }
    }

    /// Sets the segment style: flat and filled segments are filled, outline
    /// and filled ones shaded.
    pub fn set_segment_style(&mut self, style: SegmentStyle)
        requires
            old(self).wf(),
        ensures
            final(self).wf(),
            final(self)@ == (LcdView {
                fill: style == SegmentStyle::Flat || style == SegmentStyle::Filled,
                shadow: style == SegmentStyle::Outline || style == SegmentStyle::Filled,
                ..old(self)@
            }),
            style_of(final(self)@.fill, final(self)@.shadow) == style,
    {
        self.fill = style == SegmentStyle::Flat || style == SegmentStyle::Filled;
        self.shadow = style == SegmentStyle::Outline || style == SegmentStyle::Filled;
    }

    /// The characters shown, one per position.
    pub fn digit_string(&self) -> (r: String)
        ensures
            r@ == self@.digits,
    {
        string_of(&self.digits)
    }

    /// The decimal point flags, one per position.
    pub fn decimal_points(&self) -> (r: &[bool])
        ensures
            r@ == self@.points,
    {
        self.points.as_slice()
    }

    fn set_display_string(&mut self, text: &str)
        requires
            old(self).wf(),
        ensures
            final(self).wf(),
            final(self)@ == spec_set_display(old(self)@, text@),
    {
        let n = self.ndigits;
        let chars = chars_of(text);
        let (buffer, new_points) = if !self.small_point {
            let take = if chars.len() < n {
                chars.len()
            } else {
                n
            };
            let mut tail: Vec<char> = Vec::new();
            let mut i: usize = chars.len() - take;
            while i < chars.len()
                invariant
                    chars@.len() - take <= i <= chars@.len(),
                    take <= chars@.len(),
                    tail@ == chars@.subrange(chars@.len() - take, i as int),
                decreases chars@.len() - i,
            {
                tail.push(chars[i]);
                i = i + 1;
                assert(tail@ =~= chars@.subrange(chars@.len() - take, i as int));
            }
            (concat_chars(repeat_char(' ', n - take), &tail), repeat_bool(false, n))
        } else {
            let (cells, pts) = layout_points(&chars, n);
            let used = cells.len();
            (concat_chars(repeat_char(' ', n - used), &cells), concat_bools(repeat_bool(false, n - used), &pts))
        };
        proof {
            assert(Seq::new((n - 0) as nat, |i: int| false) =~= no_points(n as nat));
        }
        if same_char_vec(&buffer, &self.digits) && (!self.small_point || same_bool_vec(&new_points, &self.points)) {
            return;
        }
        self.digits = buffer;
        if self.small_point {
            self.points = new_points;
        }
    }

    /// Shows `num` in the current base; returns whether it overflowed (the
    /// display then stays as it was).
    pub fn display_i32(&mut self, num: i32) -> (overflow: bool)
        requires
            old(self).wf(),
        ensures
            final(self).wf(),
            overflow == (lcd_int_text(num as int, old(self)@.mode, old(self)@.ndigits).len() > old(self)@.ndigits),
            final(self)@ == (if overflow {
                old(self)@
            } else {
                spec_set_display(old(self)@, lcd_int_text(num as int, old(self)@.mode, old(self)@.ndigits))
            }),
    {
        match int_to_lcd_string(num, self.mode, self.ndigits) {
            Some(t) => {
                self.set_display_string(t.as_str());
                false
            },
            None => true,
        }
    }

    /// Shows `text`, character by character.
    pub fn display_str(&mut self, text: &str)
        requires
            old(self).wf(),
        ensures
            final(self).wf(),
            final(self)@ == spec_set_display(old(self)@, text@),
    {
        self.set_display_string(text);
    }

    /// Whether `num` would overflow in the current base and positions.
    pub fn check_overflow_i32(&self, num: i32) -> (r: bool)
        ensures
            r == (lcd_int_text(num as int, self@.mode, self@.ndigits).len() > self@.ndigits),
    {
        int_to_lcd_string(num, self.mode, self.ndigits).is_none()
    }

    /// The preferred size.
    pub fn size_hint(&self) -> (r: Size)
        requires
            self.wf(),
        ensures
            r == lcd_size_hint(self@.ndigits, self@.small_point),
    {
        let extra: i32 = if self.small_point {
            0
        } else {
            1
        };
        Size { width: 10 + 9 * (self.ndigits as i32 + extra), height: 23 }
    }

    pub fn geometry(&self) -> (r: Rect)
        ensures
            r == self@.geometry,
    {
        self.geometry
    }

    pub fn set_geometry(&mut self, rect: Rect)
        requires
            old(self).wf(),
        ensures
            final(self).wf(),
            final(self)@ == (LcdView { geometry: rect, ..old(self)@ }),
    {
        self.geometry = rect;
    }

    pub fn is_visible(&self) -> (r: bool)
        ensures
            r == self@.visible,
    {
        self.visible
    }

    pub fn set_visible(&mut self, visible: bool)
        requires
            old(self).wf(),
        ensures
            final(self).wf(),
            final(self)@ == (LcdView { visible, ..old(self)@ }),
    {
        self.visible = visible;
    }

    pub fn is_enabled(&self) -> (r: bool)
        ensures
            r == self@.enabled,
    {
        self.enabled
    }

    pub fn set_enabled(&mut self, enabled: bool)
        requires
            old(self).wf(),
        ensures
            final(self).wf(),
            final(self)@ == (LcdView { enabled, ..old(self)@ }),
    {
        self.enabled = enabled;
    }
}

} // verus!
